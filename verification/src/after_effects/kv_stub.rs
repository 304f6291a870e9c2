//! The file-backed key-value store used to test the bridge: one file per
//! key in a preopened directory.
use vstd::prelude::*;
use crate::text::{chars_of, push_char, push_str};

verus! {

/// Whether `c` is an ASCII letter or digit.
pub open spec fn is_ascii_alphanumeric(c: char) -> bool {
    ('0' <= c && c <= '9') || ('a' <= c && c <= 'z') || ('A' <= c && c <= 'Z')
}

/// The file name a key is stored under: every character that is not an
/// ASCII letter or digit becomes `_` (bridge keys hold `:`, and a key must
/// never escape the directory), followed by `.bin`.
pub open spec fn key_path_spec(key: Seq<char>) -> Seq<char> {
    Seq::new(key.len(), |i: int| if is_ascii_alphanumeric(key[i]) { key[i] } else { '_' }) + ".bin"@
}

/// The file name for `key` inside the store directory.
pub fn key_path(key: &str) -> (out: String)
    ensures
        out@ == key_path_spec(key@),
{
    let cs = chars_of(key);
    let mut out = String::new();
    let mut i: usize = 0;
    while i < cs.len()
        invariant
            i <= cs.len(),
            cs@ == key@,
            out@ == Seq::new(i as nat, |j: int| if is_ascii_alphanumeric(key@[j]) { key@[j] } else { '_' }),
        decreases cs.len() - i,
    {
        let c = cs[i];
        let keep = ('0' <= c && c <= '9') || ('a' <= c && c <= 'z') || ('A' <= c && c <= 'Z');
        push_char(&mut out, if keep { c } else { '_' });
        i = i + 1;
        assert(out@ =~= Seq::new(i as nat, |j: int| if is_ascii_alphanumeric(key@[j]) { key@[j] } else { '_' }));
    }
    push_str(&mut out, ".bin");
    assert(out@ =~= key_path_spec(key@));
    out
}

/// A file name never holds a path separator, so a key cannot escape the
/// store directory.
pub proof fn law_key_file_stays_in_directory(key: Seq<char>)
    ensures
        !key_path_spec(key).contains('/'),
        !key_path_spec(key).contains('\\'),
{
    let f = key_path_spec(key);
    assert(".bin"@ =~= seq!['.', 'b', 'i', 'n']) by {
        reveal_strlit(".bin");
    }
    assert forall|i: int| 0 <= i < f.len() implies f[i] != '/' && f[i] != '\\' by {
        if i < key.len() {
        } else {
            assert(f[i] == ".bin"@[i - key.len()]);
        }
    }
}

} // verus!
