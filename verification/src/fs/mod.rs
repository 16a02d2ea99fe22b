//! Folders and files of the users: where a user's path lies on disk, and the
//! description of a folder or file that the API answers with.
use vstd::prelude::*;
use vstd::string::StringExecFns;
use crate::auth::UserID;
use crate::fs::netfilepath::NetFilePath;
use crate::fs::netfilepath::join_prefix;
use crate::fs::path::{
    cur_component, is_named_piece, lemma_components_concat, lemma_split_concat, root_component, split_slash,
    base_relation_view, file_name, file_name_of, path_components, path_push, push_path, seqs_of,
    strings_of, strings_view, strip_base, strip_base_spec, BaseRelation, components_of,
};
use crate::text::{chars_of, string_of};
use crate::fs::metadata::NodeMetadata;

pub mod buffers;
pub mod download;
pub mod metadata;
pub mod netfilepath;
pub mod partial_file;
pub mod path;
pub mod previews;
pub mod shared;
pub mod write_read_pipe;

verus! {

/// Where the path `p` of `user` lies: `p` pushed onto the user's folder, which is the
/// user's id pushed onto the data folder (both pushes as `PathBuf::push`).
pub open spec fn abs_data_path(data_path: Seq<char>, user: Seq<char>, p: Seq<char>) -> Seq<char> {
    path_push(path_push(data_path, user), p)
}

/// The absolute path of the user path `p`: `<data_path>/<user id>/<p>`.
pub fn to_abs_data_path(data_path: &str, user: &UserID, p: &str) -> (res: String)
    ensures
        res@ == abs_data_path(data_path@, user.0@, p@),
{
    let mut root = String::from_str(data_path);
    push_path(&mut root, user.0.as_str());
    push_path(&mut root, p);
    root
}

/// The folder of `user` below the data folder.
pub fn user_root(data_path: &str, user: &UserID) -> (res: String)
    ensures
        res@ == path_push(data_path@, user.0@),
{
    let mut root = String::from_str(data_path);
    push_path(&mut root, user.0.as_str());
    root
}

/// A folder or file as the API describes it.
#[derive(Debug)]
pub struct NetNode {
    pub name: String,
    pub children_folder: Option<Vec<String>>,
    pub files: Option<Vec<String>>,
    pub path_from_root: Vec<String>,
    pub metadata: NodeMetadata,
    pub owned_by: UserID,
}

/// What a node request is answered with.
#[derive(Debug)]
pub enum NodeContentResponse {
    /// 404
    PathNotFound(String),
    /// 409
    DirError(String),
    /// 200
    NodeData(NetNode),
}

/// The kind of a folder entry.
#[derive(Debug, Clone, Copy, PartialEq, Eq, Structural)]
pub enum EntryKind {
    Dir,
    File,
    Other,
}

/// One entry of a folder listing: its name and kind.
#[derive(Debug)]
pub struct DirEntryInfo {
    pub name: String,
    pub kind: EntryKind,
}

/// The names of the entries of `kind`, in listing order.
pub open spec fn names_of_kind(entries: Seq<DirEntryInfo>, kind: EntryKind) -> Seq<Seq<char>>
    decreases entries.len(),
{
    if entries.len() == 0 {
        Seq::<Seq<char>>::empty()
    } else {
        let rest = names_of_kind(entries.drop_last(), kind);
        if entries.last().kind == kind {
            rest.push(entries.last().name@)
        } else {
            rest
        }
    }
}

/// The names listed for a kind are exactly the names of the entries of that kind, in
/// listing order, whatever the names are (hidden `.` names included): the entries of that
/// kind, kept in order, each taken by its name.
pub proof fn lemma_names_of_kind_are_all_of_that_kind(entries: Seq<DirEntryInfo>, kind: EntryKind)
    ensures
        names_of_kind(entries, kind) == entries.filter(|e: DirEntryInfo| e.kind == kind).map_values(
            |e: DirEntryInfo| e.name@,
        ),
    decreases entries.len(),
{
    let pred = |e: DirEntryInfo| e.kind == kind;
    let name = |e: DirEntryInfo| e.name@;
    if entries.len() == 0 {
        assert(entries.filter(pred) =~= Seq::<DirEntryInfo>::empty()) by {
            reveal(Seq::filter);
        }
        assert(entries.filter(pred).map_values(name) =~= Seq::<Seq<char>>::empty());
    } else {
        let init = entries.drop_last();
        lemma_names_of_kind_are_all_of_that_kind(init, kind);
        assert(init.push(entries.last()) =~= entries);
        init.lemma_filter_push(entries.last(), pred);
        if pred(entries.last()) {
            assert(init.filter(pred).push(entries.last()).map_values(name) =~= init.filter(pred).map_values(
                name,
            ).push(entries.last().name@));
        }
    }
}

/// The names of the entries of `kind`, in listing order.
pub fn collect_names(entries: &Vec<DirEntryInfo>, kind: EntryKind) -> (res: Vec<String>)
    ensures
        strings_view(res@) == names_of_kind(entries@, kind),
{
    let mut res: Vec<String> = Vec::new();
    let mut i: usize = 0;
    while i < entries.len()
        invariant
            i <= entries.len(),
            strings_view(res@) == names_of_kind(entries@.take(i as int), kind),
        decreases entries.len() - i,
    {
        assert(entries@.take(i + 1).drop_last() =~= entries@.take(i as int));
        if entries[i].kind == kind {
            let ghost old_res = res@;
            let name = entries[i].name.clone();
            res.push(name);
            assert(strings_view(res@) =~= strings_view(old_res).push(entries@[i as int].name@));
        }
        i += 1;
    }
    assert(entries@.take(entries@.len() as int) =~= entries@);
    res
}

/// What deleting a node does.
#[derive(Debug, Clone, Copy, PartialEq, Eq, Structural)]
pub enum DeleteAction {
    /// The path does not exist: the request is refused.
    Refuse,
    /// Remove the file.
    RemoveFile,
    /// Remove the folder with everything in it.
    RemoveDir,
}

/// How a node is deleted: a missing path is refused, a file removed, anything else
/// removed with all its contents.
pub fn delete_action(exists: bool, is_file: bool) -> (a: DeleteAction)
    ensures
        a == (if !exists {
            DeleteAction::Refuse
        } else if is_file {
            DeleteAction::RemoveFile
        } else {
            DeleteAction::RemoveDir
        }),
{
    if !exists {
        DeleteAction::Refuse
    } else if is_file {
        DeleteAction::RemoveFile
    } else {
        DeleteAction::RemoveDir
    }
}

/// The message of a `Wrong base_path` answer.
pub open spec fn wrong_base_msg() -> Seq<char> {
    "Wrong base_path"@
}

/// The components of the node path `folder_path`, as the answer lists them: all of them
/// for a user's own node; for a shared node, those after the components of the share's
/// `base_path`. A folder path that leaves the base path is answered with `DirError`,
/// one that ends inside it with `PathNotFound`, both saying "Wrong base_path".
pub fn node_path_from_root(folder_path: &NetFilePath, base_path: Option<&str>) -> (res: Result<
    Vec<String>,
    NodeContentResponse,
>)
    ensures
        match base_path {
            None => res is Ok && strings_view(res->Ok_0@) == path_components(folder_path@),
            Some(bp) => match strip_base_spec(path_components(folder_path@), path_components(bp@)) {
                Some(Some(rest)) => res is Ok && strings_view(res->Ok_0@) == rest,
                Some(None) => res matches Err(NodeContentResponse::PathNotFound(m)) && m@
                    == wrong_base_msg(),
                None => res matches Err(NodeContentResponse::DirError(m)) && m@ == wrong_base_msg(),
            },
        },
{
    match base_path {
        None => {
            let fc = chars_of(folder_path.as_str());
            let comps = components_of(fc.as_slice());
            Ok(strings_of(&comps))
        },
        Some(bp) => match strip_base(folder_path.as_str(), bp) {
            BaseRelation::Below(rest) => Ok(rest),
            BaseRelation::Shorter => Err(NodeContentResponse::PathNotFound(String::from_str("Wrong base_path"))),
            BaseRelation::Mismatch => Err(NodeContentResponse::DirError(String::from_str("Wrong base_path"))),
        },
    }
}

/// The answer for a node once its path components are known: `listing` is the folder
/// listing (`None` for a file, `Err(message)` when listing failed), `metadata` the node's
/// metadata (`None` when fetching it failed). A failed listing is answered with
/// `DirError(message)`, missing metadata with `DirError("Metadata fetch failed")`;
/// otherwise the node is described with its name (the last component of its path, or
/// empty), its sub-folders and files (for a folder), and the user it belongs to.
pub fn build_net_node(
    folder_path: &NetFilePath,
    path_from_root: Vec<String>,
    listing: Option<Result<Vec<DirEntryInfo>, String>>,
    metadata: Option<NodeMetadata>,
    user_id: UserID,
) -> (res: NodeContentResponse)
    ensures
        match listing {
            Some(Err(e)) => res matches NodeContentResponse::DirError(m) && m@ == e@,
            _ => match metadata {
                None => res matches NodeContentResponse::DirError(m) && m@ == "Metadata fetch failed"@,
                Some(md) => res matches NodeContentResponse::NodeData(node) && {
                    &&& node.name@ == (match file_name(folder_path@) {
                        Some(n) => n,
                        None => Seq::<char>::empty(),
                    })
                    &&& node.path_from_root == path_from_root
                    &&& node.metadata == md
                    &&& node.owned_by == user_id
                    &&& match listing {
                        Some(Ok(entries)) => {
                            &&& node.children_folder is Some
                            &&& node.files is Some
                            &&& strings_view(node.children_folder->0@) == names_of_kind(entries@, EntryKind::Dir)
                            &&& strings_view(node.files->0@) == names_of_kind(entries@, EntryKind::File)
                        },
                        _ => node.children_folder is None && node.files is None,
                    }
                },
            },
        },
{
    let mut children_folder: Option<Vec<String>> = None;
    let mut files: Option<Vec<String>> = None;
    match listing {
        Some(Err(e)) => {
            return NodeContentResponse::DirError(e);
        },
        Some(Ok(entries)) => {
            children_folder = Some(collect_names(&entries, EntryKind::Dir));
            files = Some(collect_names(&entries, EntryKind::File));
        },
        None => {},
    }
    let metadata = match metadata {
        Some(md) => md,
        None => {
            return NodeContentResponse::DirError(String::from_str("Metadata fetch failed"));
        },
    };
    let fc = chars_of(folder_path.as_str());
    let name = match file_name_of(fc.as_slice()) {
        Some(n) => string_of(n.as_slice()),
        None => String::new(),
    };
    NodeContentResponse::NodeData(
        NetNode { name, children_folder, files, path_from_root, metadata, owned_by: user_id },
    )
}

/// A shared node lists its path from the share's folder on: the client's path `p`,
/// prefixed with the share's (non-empty) folder `base` as `add_prefix` does, has the
/// components of `base` followed by those of `p`, so that stripping `base` again (as
/// `node_path_from_root` does for shared nodes) gives exactly the components of `p`.
/// `p` must be relative (not start with `/`) and must not start with a `.` piece.
pub proof fn lemma_shared_path_from_root(base: Seq<char>, p: Seq<char>)
    requires
        base.len() > 0,
        p.len() == 0 || p[0] != '/',
        split_slash(p)[0] != cur_component(),
    ensures
        strip_base_spec(path_components(join_prefix(base, p)), path_components(base)) == Some(
            Some(path_components(p)),
        ),
{
    let joined = join_prefix(base, p);
    let bc = path_components(base);
    let pc = path_components(p);
    if p.len() == 0 {
        assert(joined =~= base);
        assert(split_slash(p) =~= seq![Seq::<char>::empty()]);
        assert(pc =~= Seq::<Seq<char>>::empty()) by {
            let none = Seq::<Seq<char>>::empty();
            assert(none.push(Seq::<char>::empty()) =~= seq![Seq::<char>::empty()]);
            none.lemma_filter_push(Seq::<char>::empty(), |s: Seq<char>| is_named_piece(s));
            assert(none.filter(|s: Seq<char>| is_named_piece(s)) =~= none) by {
                reveal(Seq::filter);
            }
        }
        assert(bc.is_prefix_of(bc));
        assert(bc.skip(bc.len() as int) =~= pc);
    } else if base.last() == '/' {
        let b0 = base.drop_last();
        assert(base =~= b0 + seq!['/']);
        assert(joined =~= b0 + seq!['/'] + p);
        if b0.len() == 0 {
            lemma_split_concat(b0, p);
            lemma_split_concat(b0, Seq::<char>::empty());
            assert(b0 + seq!['/'] + Seq::<char>::empty() =~= base);
            let pred = |s: Seq<char>| is_named_piece(s);
            let e = seq![Seq::<char>::empty()];
            assert(split_slash(b0) =~= e);
            assert(split_slash(Seq::<char>::empty()) =~= e);
            Seq::filter_distributes_over_add(e, split_slash(p), pred);
            Seq::filter_distributes_over_add(e, e, pred);
            assert(e.filter(pred) =~= Seq::<Seq<char>>::empty()) by {
                let none = Seq::<Seq<char>>::empty();
                assert(none.push(Seq::<char>::empty()) =~= e);
                none.lemma_filter_push(Seq::<char>::empty(), pred);
                assert(none.filter(pred) =~= none) by {
                    reveal(Seq::filter);
                }
            }
            assert(joined[0] == '/');
            assert(base[0] == '/');
            assert(bc =~= seq![root_component()]);
            assert(path_components(joined) =~= seq![root_component()] + pc);
            assert(bc.is_prefix_of(path_components(joined)));
            assert(path_components(joined).skip(bc.len() as int) =~= pc);
        } else {
            lemma_components_concat(b0, p);
            assert(path_components(base) == path_components(b0));
            assert(bc.is_prefix_of(bc + pc));
            assert((bc + pc).skip(bc.len() as int) =~= pc);
        }
    } else {
        assert(joined =~= base + seq!['/'] + p);
        lemma_components_concat(base, p);
        assert(bc.is_prefix_of(bc + pc));
        assert((bc + pc).skip(bc.len() as int) =~= pc);
    }
}

} // verus!
