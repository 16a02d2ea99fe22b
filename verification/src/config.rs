//! The server's configuration: where the data and the database live, and how the
//! icons of some file types look.
use vstd::prelude::*;
use vstd::string::StringExecFns;
use crate::text::{chars_of, chars_eq, decimal, push_decimal, push_str};

verus! {

/// How the icon of one file type looks.
#[derive(Debug)]
pub struct IconConf {
    pub display_text: String,
    pub color: String,
}

impl Clone for IconConf {
    fn clone(&self) -> (res: Self)
        ensures
            res == *self,
    {
        IconConf { display_text: self.display_text.clone(), color: self.color.clone() }
    }
}

/// The configuration, once loaded.
pub struct ConfigStore {
    data_path: String,
    db_path: String,
    /// Icon looks by (upper-case) file type, as read from the icon configuration file.
    icon_conf: Vec<(String, IconConf)>,
}

/// The data folder used when `DATA_PATH` is not set.
pub open spec fn default_data_path() -> Seq<char> {
    "./test_data"@
}

/// The database used when `DB_PATH` is not set.
pub open spec fn default_db_path() -> Seq<char> {
    "./database.sqlite"@
}

/// The file the icon looks are read from when `ICON_CONF` is not set.
pub open spec fn default_icon_conf_path() -> Seq<char> {
    "./icon-conf.json"@
}

/// The icon configuration file: the value of `ICON_CONF`, or `./icon-conf.json`.
pub fn icon_conf_path(env_value: Option<String>) -> (res: String)
    ensures
        res@ == (match env_value {
            Some(v) => v@,
            None => default_icon_conf_path(),
        }),
{
    match env_value {
        Some(v) => v,
        None => String::from_str("./icon-conf.json"),
    }
}

/// No two looks are filed under the same key (they come from a map keyed by file type).
pub open spec fn distinct_keys(confs: Seq<(String, IconConf)>) -> bool {
    forall|i: int, j: int| 0 <= i < j < confs.len() ==> confs[i].0@ != confs[j].0@
}

/// The first look filed under `key` in `confs`.
pub open spec fn conf_lookup(confs: Seq<(String, IconConf)>, key: Seq<char>) -> Option<IconConf>
    decreases confs.len(),
{
    if confs.len() == 0 {
        None
    } else if confs[0].0@ == key {
        Some(confs[0].1)
    } else {
        conf_lookup(confs.drop_first(), key)
    }
}

/// The text `ConfigStore:` / data path / database path / number of icon looks that is
/// logged after loading the configuration.
pub open spec fn config_summary(data_path: Seq<char>, db_path: Seq<char>, n_icons: nat) -> Seq<char> {
    "ConfigStore:\n\tdata_path: "@ + data_path + "\n\tdb_path: "@ + db_path
        + "\n\tStored icon confs: "@ + decimal(n_icons)
}

impl ConfigStore {
    /// The configuration from the values of `DATA_PATH` and `DB_PATH` (if set) and the
    /// icon looks read from the icon configuration file; unset paths get their defaults.
    pub fn new(
        data_path_env: Option<String>,
        db_path_env: Option<String>,
        icon_conf: Vec<(String, IconConf)>,
    ) -> (res: Self)
        requires
            distinct_keys(icon_conf@),
        ensures
            res.data_path_view() == (match data_path_env {
                Some(v) => v@,
                None => default_data_path(),
            }),
            res.db_path_view() == (match db_path_env {
                Some(v) => v@,
                None => default_db_path(),
            }),
            res.icon_confs_view() == icon_conf@,
    {
        let data_path = match data_path_env {
            Some(v) => v,
            None => String::from_str("./test_data"),
        };
        let db_path = match db_path_env {
            Some(v) => v,
            None => String::from_str("./database.sqlite"),
        };
        ConfigStore { data_path, db_path, icon_conf }
    }

    #[verifier::type_invariant]
    spec fn keys_distinct(&self) -> bool {
        distinct_keys(self.icon_conf@)
    }

    pub closed spec fn data_path_view(&self) -> Seq<char> {
        self.data_path@
    }

    pub closed spec fn db_path_view(&self) -> Seq<char> {
        self.db_path@
    }

    pub closed spec fn icon_confs_view(&self) -> Seq<(String, IconConf)> {
        self.icon_conf@
    }

    /// The data folder.
    pub fn data_path(&self) -> (res: &str)
        ensures
            res@ == self.data_path_view(),
    {
        self.data_path.as_str()
    }

    /// The database file.
    pub fn db_path(&self) -> (res: &str)
        ensures
            res@ == self.db_path_view(),
    {
        self.db_path.as_str()
    }

    /// The configured icon looks.
    pub fn icon_confs(&self) -> (res: &Vec<(String, IconConf)>)
        ensures
            res@ == self.icon_confs_view(),
            distinct_keys(res@),
    {
        proof {
            use_type_invariant(self);
        }
        &self.icon_conf
    }

    /// The icon look configured for `key`, if any.
    pub fn icon_conf_for(&self, key: &str) -> (res: Option<IconConf>)
        ensures
            res == conf_lookup(self.icon_confs_view(), key@),
    {
        let kc = chars_of(key);
        let mut i: usize = 0;
        assert(self.icon_conf@.skip(0) =~= self.icon_conf@);
        while i < self.icon_conf.len()
            invariant
                i <= self.icon_conf@.len(),
                kc@ == key@,
                conf_lookup(self.icon_conf@, key@) == conf_lookup(self.icon_conf@.skip(i as int), key@),
            decreases self.icon_conf@.len() - i,
        {
            let ghost rest = self.icon_conf@.skip(i as int);
            assert(rest.drop_first() =~= self.icon_conf@.skip(i + 1));
            let ec = chars_of(self.icon_conf[i].0.as_str());
            if chars_eq(ec.as_slice(), kc.as_slice()) {
                return Some(self.icon_conf[i].1.clone());
            }
            i += 1;
        }
        None
    }

    /// A summary of the configuration.
    pub fn debug_config_store(&self) -> (res: String)
        ensures
            res@ == config_summary(self.data_path_view(), self.db_path_view(), self.icon_confs_view().len()),
    {
        debug_config_store(self.data_path.as_str(), self.db_path.as_str(), self.icon_conf.len())
    }
}

/// The configuration summary for the given data path, database path and number of
/// icon looks.
pub fn debug_config_store(data_path: &str, db_path: &str, n_icons: usize) -> (res: String)
    ensures
        res@ == config_summary(data_path@, db_path@, n_icons as nat),
{
    let mut res = String::from_str("ConfigStore:\n\tdata_path: ");
    push_str(&mut res, data_path);
    push_str(&mut res, "\n\tdb_path: ");
    push_str(&mut res, db_path);
    push_str(&mut res, "\n\tStored icon confs: ");
    push_decimal(&mut res, n_icons as u64);
    res
}

/// With keys filed once, the look found for a key is the one filed under it.
pub proof fn lemma_conf_lookup_finds_entry(confs: Seq<(String, IconConf)>, i: int)
    requires
        distinct_keys(confs),
        0 <= i < confs.len(),
    ensures
        conf_lookup(confs, confs[i].0@) == Some(confs[i].1),
    decreases i,
{
    if i > 0 {
        let rest = confs.drop_first();
        assert forall|a: int, b: int| 0 <= a < b < rest.len() implies rest[a].0@ != rest[b].0@ by {
            assert(rest[a] == confs[a + 1] && rest[b] == confs[b + 1]);
        }
        lemma_conf_lookup_finds_entry(rest, i - 1);
        assert(rest[i - 1] == confs[i]);
        assert(confs[0].0@ != confs[i].0@);
    }
}

} // verus!
