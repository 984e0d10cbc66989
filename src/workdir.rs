//! Names of the per-session working directories, and the secret key read from the
//! environment.

use vstd::prelude::*;
use crate::error::ErrorKind;
use crate::text::chars_of;

verus! {

/// The lowercase hex digit for `n` (below 16).
pub open spec fn hex_digit(n: int) -> char {
    if n < 10 {
        (('0' as int) + n) as char
    } else {
        (('a' as int) + n - 10) as char
    }
}

/// Lowercase hex of `b`: two digits per byte, high nibble first.
pub open spec fn hex_lower(b: Seq<u8>) -> Seq<char>
    decreases b.len(),
{
    if b.len() == 0 {
        Seq::<char>::empty()
    } else {
        hex_lower(b.drop_last()) + seq![hex_digit(b.last() as int / 16), hex_digit(b.last() as int % 16)]
    }
}

/// The value of a hex digit of either case, or -1.
pub open spec fn hex_value(c: char) -> int {
    if '0' <= c && c <= '9' {
        c as int - '0' as int
    } else if 'a' <= c && c <= 'f' {
        c as int - 'a' as int + 10
    } else if 'A' <= c && c <= 'F' {
        c as int - 'A' as int + 10
    } else {
        -1
    }
}

/// The bytes that a hex string of either case spells, when it has an even length and
/// holds nothing but hex digits.
pub open spec fn unhex(s: Seq<char>) -> Option<Seq<u8>>
    decreases s.len(),
{
    if s.len() == 0 {
        Some(Seq::<u8>::empty())
    } else if s.len() == 1 {
        None
    } else {
        let hi = hex_value(s[s.len() - 2]);
        let lo = hex_value(s[s.len() - 1]);
        match unhex(s.subrange(0, s.len() - 2)) {
            Some(b) => if hi >= 0 && lo >= 0 {
                Some(b.push((hi * 16 + lo) as u8))
            } else {
                None
            },
            None => None,
        }
    }
}

/// Relies on `data_encoding::HEXLOWER.encode`: lowercase hex, two digits per byte.
#[verifier::external_body]
fn hex_encode_lower(b: &[u8; 16]) -> (r: String)
    ensures
        r@ == hex_lower(b@),
{
    data_encoding::HEXLOWER.encode(b)
}

/// Relies on `iroh_blobs::Hash::to_hex`: lowercase hex of the hash's 32 bytes.
#[verifier::external_body]
fn hash_to_hex(h: &[u8; 32]) -> (r: String)
    ensures
        r@ == hex_lower(h@),
{
    iroh_blobs::Hash::from_bytes(*h).to_hex()
}

/// Relies on `hex::decode`: the bytes of an even-length string of hex digits of either
/// case, and an error for anything else.
#[verifier::external_body]
fn hex_decode(s: &str) -> (r: Option<Vec<u8>>)
    ensures
        r is Some == unhex(s@) is Some,
        r matches Some(v) ==> v@ == unhex(s@)->Some_0,
{
    hex::decode(s).ok()
}

/// The prefix of a send session's working directory.
pub open spec fn send_prefix() -> Seq<char> {
    ".sendme-send-"@
}

/// The prefix of a receive session's working directory.
pub open spec fn recv_prefix() -> Seq<char> {
    ".sendme-recv-"@
}

/// The working directory name of a send session with random suffix `suffix`.
pub fn send_dir_name(suffix: &[u8; 16]) -> (r: String)
    ensures
        r@ == send_prefix() + hex_lower(suffix@),
{
    let mut r = String::from_str(".sendme-send-");
    let h = hex_encode_lower(suffix);
    r.append(h.as_str());
    r
}

/// The working directory name of a receive session for the collection `root_hash`.
pub fn recv_dir_name(root_hash: &[u8; 32]) -> (r: String)
    ensures
        r@ == recv_prefix() + hex_lower(root_hash@),
{
    let mut r = String::from_str(".sendme-recv-");
    let h = hash_to_hex(root_hash);
    r.append(h.as_str());
    r
}

/// `s` begins with `p`.
pub open spec fn starts_with(s: Seq<char>, p: Seq<char>) -> bool {
    p.len() <= s.len() && s.take(p.len() as int) == p
}

/// Whether `s` begins with `p`.
pub fn has_prefix(s: &str, p: &str) -> (r: bool)
    ensures
        r == starts_with(s@, p@),
{
    let cs = chars_of(s);
    let ps = chars_of(p);
    if ps.len() > cs.len() {
        return false;
    }
    let mut i: usize = 0;
    while i < ps.len()
        invariant
            cs@ == s@,
            ps@ == p@,
            ps@.len() <= cs@.len(),
            i <= ps@.len(),
            forall|k: int| 0 <= k < i ==> cs@[k] == ps@[k],
        decreases ps@.len() - i,
    {
        if cs[i] != ps[i] {
            assert(s@.take(p@.len() as int)[i as int] != p@[i as int]);
            return false;
        }
        i = i + 1;
    }
    assert(s@.take(p@.len() as int) =~= p@);
    true
}

/// Some entry of the base directory is the working directory of a send session.
pub open spec fn holds_send_dir(entries: Seq<String>) -> bool {
    exists|i: int| 0 <= i < entries.len() && starts_with(#[trigger] entries[i]@, send_prefix())
}

/// Checks before a send session, given whether the path to share exists, whether a
/// temporary directory was given, whether the path is the current directory, and the
/// names of the entries of the base directory. Fails with `InvalidPath` when the path
/// does not exist; else with `PathConflict` when the base directory already holds a send
/// session's working directory, or when no temporary directory is given and the path is
/// the current directory.
pub fn check_send_setup(path_exists: bool, temp_dir_given: bool, path_is_cwd: bool, base_entries: &Vec<String>) -> (r:
    Result<(), ErrorKind>)
    ensures
        r is Err <==> (!path_exists || holds_send_dir(base_entries@) || (!temp_dir_given && path_is_cwd)),
        r == Err::<(), ErrorKind>(ErrorKind::InvalidPath) <==> !path_exists,
        r == Err::<(), ErrorKind>(ErrorKind::PathConflict) <==> (path_exists && (holds_send_dir(base_entries@) || (
        !temp_dir_given && path_is_cwd))),
{
    if !path_exists {
        return Err(ErrorKind::InvalidPath);
    }
    if !temp_dir_given && path_is_cwd {
        return Err(ErrorKind::PathConflict);
    }
    let mut i: usize = 0;
    while i < base_entries.len()
        invariant
            path_exists,
            !(!temp_dir_given && path_is_cwd),
            i <= base_entries@.len(),
            forall|k: int| 0 <= k < i ==> !starts_with(#[trigger] base_entries@[k]@, send_prefix()),
        decreases base_entries@.len() - i,
    {
        if has_prefix(base_entries[i].as_str(), ".sendme-send-") {
            assert(starts_with(base_entries@[i as int]@, send_prefix()));
            assert(holds_send_dir(base_entries@));
            return Err(ErrorKind::PathConflict);
        }
        i = i + 1;
    }
    Ok(())
}

/// A secret key in its text form: exactly 64 lowercase hex digits.
pub open spec fn secret_text_ok(s: Seq<char>) -> bool {
    &&& s.len() == 64
    &&& forall|i: int| 0 <= i < s.len() ==> ('0' <= #[trigger] s[i] && s[i] <= '9') || ('a' <= s[i] && s[i] <= 'f')
}

/// Reads a secret key given as lowercase hex of exactly 32 bytes. Fails with
/// `InvalidSecret` on anything else.
pub fn parse_secret(s: &str) -> (r: Result<[u8; 32], ErrorKind>)
    ensures
        r is Ok <==> secret_text_ok(s@),
        r matches Ok(k) ==> unhex(s@) == Some(k@),
        r is Err ==> r->Err_0 == ErrorKind::InvalidSecret,
{
    let cs = chars_of(s);
    if cs.len() != 64 {
        return Err(ErrorKind::InvalidSecret);
    }
    let mut i: usize = 0;
    while i < cs.len()
        invariant
            cs@ == s@,
            i <= cs@.len(),
            forall|k: int| 0 <= k < i ==> ('0' <= #[trigger] cs@[k] && cs@[k] <= '9') || ('a' <= cs@[k] && cs@[k] <= 'f'),
        decreases cs@.len() - i,
    {
        let c = cs[i];
        if !(('0' <= c && c <= '9') || ('a' <= c && c <= 'f')) {
            return Err(ErrorKind::InvalidSecret);
        }
        i = i + 1;
    }
    proof {
        lemma_unhex_lower(s@);
    }
    match hex_decode(s) {
        Some(v) => {
            let mut key = [0u8; 32];
            let mut j: usize = 0;
            while j < 32
                invariant
                    v@.len() == 32,
                    j <= 32,
                    key@.len() == 32,
                    forall|k: int| 0 <= k < j ==> key@[k] == v@[k],
                decreases 32 - j,
            {
                key[j] = v[j];
                j = j + 1;
            }
            assert(key@ =~= v@);
            Ok(key)
        },
        None => Err(ErrorKind::InvalidSecret),
    }
}

/// Lowercase hex text of even length decodes, to half as many bytes.
proof fn lemma_unhex_lower(s: Seq<char>)
    requires
        s.len() % 2 == 0,
        forall|i: int| 0 <= i < s.len() ==> ('0' <= #[trigger] s[i] && s[i] <= '9') || ('a' <= s[i] && s[i] <= 'f'),
    ensures
        unhex(s) matches Some(b) && b.len() * 2 == s.len(),
    decreases s.len(),
{
    if s.len() >= 2 {
        let p = s.subrange(0, s.len() - 2);
        assert forall|i: int| 0 <= i < p.len() implies ('0' <= #[trigger] p[i] && p[i] <= '9') || ('a' <= p[i] && p[i] <= 'f') by {
            assert(p[i] == s[i]);
        }
        lemma_unhex_lower(p);
        assert(hex_value(s[s.len() - 2]) >= 0);
        assert(hex_value(s[s.len() - 1]) >= 0);
    }
}

} // verus!
