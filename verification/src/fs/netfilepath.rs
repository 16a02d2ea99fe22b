//! `NetFilePath`: a path inside a user's data folder as the web API passes it,
//! with `/` as the only separator.
use vstd::prelude::*;
use vstd::utf8::{decode_utf8, valid_utf8};
use crate::text::{chars_of, contains_chars, contains_seq, string_of};

verus! {

/// The value of an ASCII hexadecimal digit byte (as `char::to_digit(16)` on it).
pub open spec fn hex_byte_value(b: u8) -> Option<u8> {
    if 48 <= b && b <= 57 {
        Some((b - 48) as u8)
    } else if 97 <= b && b <= 102 {
        Some((b - 87) as u8)
    } else if 65 <= b && b <= 70 {
        Some((b - 55) as u8)
    } else {
        None
    }
}

/// Percent-decoding of a byte sequence: `%` followed by two hexadecimal digits becomes
/// the byte they spell; every other byte, a `%` without two digits after it included,
/// stays as it is.
pub open spec fn percent_decode_bytes(b: Seq<u8>) -> Seq<u8>
    decreases b.len(),
{
    if b.len() == 0 {
        Seq::<u8>::empty()
    } else if b[0] == 37 && b.len() >= 3 && hex_byte_value(b[1]) is Some && hex_byte_value(b[2]) is Some {
        seq![(hex_byte_value(b[1]).unwrap() * 16 + hex_byte_value(b[2]).unwrap()) as u8]
            + percent_decode_bytes(b.skip(3))
    } else {
        seq![b[0]] + percent_decode_bytes(b.skip(1))
    }
}

/// What `RawStr::percent_decode` returns for the text `raw`: the percent-decoded
/// UTF-8 bytes of `raw`, if they are valid UTF-8.
pub open spec fn percent_decode_spec(raw: Seq<char>) -> Option<Seq<char>> {
    let bytes = percent_decode_bytes(vstd::utf8::encode_utf8(raw));
    if valid_utf8(bytes) {
        Some(decode_utf8(bytes))
    } else {
        None
    }
}

/// `rocket::http::RawStr::percent_decode` (via `percent_encoding::percent_decode` and
/// `decode_utf8`): percent-decodes the UTF-8 bytes of `raw` and gives the result as text,
/// or `None` when the decoded bytes are not valid UTF-8.
#[verifier::external_body]
fn percent_decode(raw: &str) -> (res: Option<String>)
    ensures
        match percent_decode_spec(raw@) {
            Some(d) => res is Some && res->0@ == d,
            None => res is None,
        },
{
    match rocket::http::RawStr::new(raw).percent_decode() {
        Ok(decoded) => Some(decoded.into_owned()),
        Err(_) => None,
    }
}

/// Windows separators turned into `/`: every `\` becomes `/`.
pub open spec fn to_slash(s: Seq<char>) -> Seq<char> {
    s.map_values(|c: char| if c == '\\' { '/' } else { c })
}

/// The text of `s` with every `\` replaced by `/`.
pub fn to_slash_exec(s: &str) -> (res: String)
    ensures
        res@ == to_slash(s@),
{
    let cs = chars_of(s);
    let mut out: Vec<char> = Vec::new();
    let mut i: usize = 0;
    while i < cs.len()
        invariant
            i <= cs.len(),
            cs@ == s@,
            out@ == to_slash(s@).take(i as int),
        decreases cs.len() - i,
    {
        let c = cs[i];
        out.push(if c == '\\' { '/' } else { c });
        i += 1;
        assert(out@ =~= to_slash(s@).take(i as int));
    }
    assert(to_slash(s@).take(s@.len() as int) =~= to_slash(s@));
    string_of(out.as_slice())
}

/// `prefix` joined in front of `p` with exactly one `/` between them: a doubled `/`
/// at the seam is collapsed, a missing one is added (unless `p` is empty).
pub open spec fn join_prefix(prefix: Seq<char>, p: Seq<char>) -> Seq<char> {
    let prefix_sep = prefix.len() > 0 && prefix.last() == '/';
    let p_sep = p.len() > 0 && p[0] == '/';
    if prefix_sep && p_sep {
        prefix + p.drop_first()
    } else if prefix_sep || p_sep {
        prefix + p
    } else if p.len() > 0 {
        prefix + seq!['/'] + p
    } else {
        prefix
    }
}

/// The text of a query value once its one optional leading `/` is dropped.
pub open spec fn without_leading_slash(decoded: Seq<char>) -> Seq<char> {
    if decoded.len() > 0 && decoded[0] == '/' {
        decoded.drop_first()
    } else {
        decoded
    }
}

/// The path a query value stands for, given its percent-decoded text `decoded`: one
/// leading `/` is dropped and `\` becomes `/`. Refused (`None`) when it contains `..`,
/// or when it would still start with a separator (`//etc`, `/\etc`: an absolute path).
pub open spec fn net_path_from_decoded(decoded: Seq<char>) -> Option<Seq<char>> {
    let rest = without_leading_slash(decoded);
    if contains_seq(decoded, seq!['.', '.']) {
        None
    } else if rest.len() > 0 && (rest[0] == '/' || rest[0] == '\\') {
        None
    } else {
        Some(to_slash(rest))
    }
}

/// A path below a user's data folder, as sent by the client (`/` separated).
#[derive(Debug)]
pub struct NetFilePath(String);

impl View for NetFilePath {
    type V = Seq<char>;

    closed spec fn view(&self) -> Seq<char> {
        self.0@
    }
}

impl NetFilePath {
    /// The path `path` with `\` separators turned into `/`.
    pub fn from_path(path: &str) -> (res: Self)
        ensures
            res@ == to_slash(path@),
    {
        NetFilePath(to_slash_exec(path))
    }

    /// Puts `prefix` (with `\` turned into `/`) in front of this path, with one `/`
    /// between the two.
    pub fn add_prefix(&mut self, prefix: &str)
        ensures
            final(self)@ == join_prefix(to_slash(prefix@), old(self)@),
    {
        let base = to_slash_exec(prefix);
        let bc = chars_of(base.as_str());
        let pc = chars_of(self.0.as_str());
        let prefix_sep = bc.len() > 0 && bc[bc.len() - 1] == '/';
        let p_sep = pc.len() > 0 && pc[0] == '/';
        let mut out = base;
        if prefix_sep && p_sep {
            let mut i: usize = 1;
            while i < pc.len()
                invariant
                    1 <= i <= pc.len(),
                    out@ == bc@ + pc@.subrange(1, i as int),
                decreases pc.len() - i,
            {
                out.push(pc[i]);
                i += 1;
                assert(out@ =~= bc@ + pc@.subrange(1, i as int));
            }
            assert(pc@.subrange(1, pc@.len() as int) =~= pc@.drop_first());
        } else if prefix_sep || p_sep {
            crate::text::push_chars(&mut out, pc.as_slice());
        } else if pc.len() > 0 {
            out.push('/');
            crate::text::push_chars(&mut out, pc.as_slice());
        }
        self.0 = out;
    }

    /// The path as text.
    pub fn as_str(&self) -> (res: &str)
        ensures
            res@ == self@,
    {
        self.0.as_str()
    }

    /// The path for an already percent-decoded query value: one leading `/` is dropped
    /// and `\` becomes `/`; refused when it contains `..` or would still be absolute.
    pub fn from_decoded(decoded: &str) -> (res: Result<Self, ()>)
        ensures
            match net_path_from_decoded(decoded@) {
                Some(p) => res is Ok && res->Ok_0@ == p,
                None => res is Err,
            },
    {
        let cs = chars_of(decoded);
        let mut dots: Vec<char> = Vec::new();
        dots.push('.');
        dots.push('.');
        assert(dots@ =~= seq!['.', '.']);
        if contains_chars(cs.as_slice(), dots.as_slice()) {
            return Err(());
        }
        if cs.len() > 0 && cs[0] == '/' {
            let mut rest: Vec<char> = Vec::new();
            let mut i: usize = 1;
            while i < cs.len()
                invariant
                    1 <= i <= cs.len(),
                    rest@ == cs@.subrange(1, i as int),
                decreases cs.len() - i,
            {
                rest.push(cs[i]);
                i += 1;
                assert(rest@ =~= cs@.subrange(1, i as int));
            }
            assert(cs@.subrange(1, cs@.len() as int) =~= cs@.drop_first());
            if rest.len() > 0 && (rest[0] == '/' || rest[0] == '\\') {
                return Err(());
            }
            let s = string_of(rest.as_slice());
            Ok(NetFilePath(to_slash_exec(s.as_str())))
        } else {
            if cs.len() > 0 && cs[0] == '\\' {
                return Err(());
            }
            Ok(NetFilePath(to_slash_exec(decoded)))
        }
    }

    /// The path for a raw (percent-encoded) query value: the value is percent-decoded,
    /// refused when that fails or when the result contains `..`, and otherwise handled
    /// as `from_decoded` says.
    pub fn from_form_value(raw: &str) -> (res: Result<Self, ()>)
        ensures
            match percent_decode_spec(raw@) {
                None => res is Err,
                Some(d) => match net_path_from_decoded(d) {
                    Some(p) => res is Ok && res->Ok_0@ == p,
                    None => res is Err,
                },
            },
    {
        match percent_decode(raw) {
            None => Err(()),
            Some(decoded) => Self::from_decoded(decoded.as_str()),
        }
    }
}

/// No path accepted from a query value contains `..`, so it cannot climb out of the
/// folder it is put under.
pub proof fn lemma_accepted_path_has_no_parent_ref(decoded: Seq<char>)
    requires
        net_path_from_decoded(decoded) is Some,
    ensures
        !contains_seq(net_path_from_decoded(decoded)->0, seq!['.', '.']),
{
    let src = if decoded.len() > 0 && decoded[0] == '/' {
        decoded.drop_first()
    } else {
        decoded
    };
    let p = to_slash(src);
    assert(p == net_path_from_decoded(decoded)->0);
    assert forall|i: int| !crate::text::occurs_at(p, seq!['.', '.'], i) by {
        if crate::text::occurs_at(p, seq!['.', '.'], i) {
            assert(p.subrange(i, i + 2)[0] == '.');
            assert(p.subrange(i, i + 2)[1] == '.');
            assert(p[i] == '.' && p[i + 1] == '.');
            assert(src[i] == '.' && src[i + 1] == '.');
            let j = if decoded.len() > 0 && decoded[0] == '/' {
                i + 1
            } else {
                i
            };
            assert(decoded[j] == '.' && decoded[j + 1] == '.');
            assert(decoded.subrange(j, j + 2) =~= seq!['.', '.']);
            assert(crate::text::occurs_at(decoded, seq!['.', '.'], j));
        }
    }
}

/// An accepted query path is relative: it does not start with `/`.
pub proof fn lemma_accepted_path_is_relative(decoded: Seq<char>)
    requires
        net_path_from_decoded(decoded) is Some,
    ensures
        ({
            let p = net_path_from_decoded(decoded)->0;
            p.len() == 0 || p[0] != '/'
        }),
{
}

} // verus!
