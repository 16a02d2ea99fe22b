use backend::config::{debug_config_store, icon_conf_path, ConfigStore, IconConf};
use backend::database::{user_from_row, UserRoll};

#[test]
fn config_defaults() {
    let c = ConfigStore::new(None, None, vec![]);
    assert_eq!(c.data_path(), "./test_data");
    assert_eq!(c.db_path(), "./database.sqlite");
    assert!(c.icon_confs().is_empty());
    assert_eq!(icon_conf_path(None), "./icon-conf.json");
    assert_eq!(icon_conf_path(Some("/etc/icons.json".to_string())), "/etc/icons.json");
}

#[test]
fn config_from_environment_values() {
    let confs = vec![
        ("PDF".to_string(), IconConf { display_text: "pdf".to_string(), color: "#f00".to_string() }),
        ("TXT".to_string(), IconConf { display_text: "txt".to_string(), color: "#0f0".to_string() }),
    ];
    let c = ConfigStore::new(Some("/data".to_string()), Some("/db.sqlite".to_string()), confs);
    assert_eq!(c.data_path(), "/data");
    assert_eq!(c.db_path(), "/db.sqlite");
    assert_eq!(c.icon_conf_for("PDF").unwrap().display_text, "pdf");
    assert_eq!(c.icon_conf_for("TXT").unwrap().color, "#0f0");
    assert!(c.icon_conf_for("DOC").is_none());
    assert_eq!(
        c.debug_config_store(),
        "ConfigStore:\n\tdata_path: /data\n\tdb_path: /db.sqlite\n\tStored icon confs: 2"
    );
    assert_eq!(debug_config_store("a", "b", 0), "ConfigStore:\n\tdata_path: a\n\tdb_path: b\n\tStored icon confs: 0");
}

#[test]
fn user_rows_from_the_table() {
    let u = user_from_row("abcd1234".to_string(), "ann".to_string(), "hash".to_string(), Some(2)).unwrap();
    assert_eq!(u.id.0, "abcd1234");
    assert_eq!(u.name, "ann");
    assert_eq!(u.hashed_pw, "hash");
    assert_eq!(u.roll, UserRoll::Admin);
    let g = user_from_row("abcd1234".to_string(), "g".to_string(), "h".to_string(), Some(7)).unwrap();
    assert_eq!(g.roll, UserRoll::Guest);
    let n = user_from_row("abcd1234".to_string(), "g".to_string(), "h".to_string(), None).unwrap();
    assert_eq!(n.roll, UserRoll::Guest);
    assert!(user_from_row("short".to_string(), "x".to_string(), "h".to_string(), Some(1)).is_none());
}

#[test]
fn roll_numbers_round_trip() {
    for r in [UserRoll::Guest, UserRoll::User, UserRoll::Admin] {
        assert_eq!(UserRoll::try_from(r.as_number()), Ok(r));
    }
    assert_eq!(UserRoll::try_from(3), Err(()));
    assert_eq!(UserRoll::User.as_number(), 1);
}
