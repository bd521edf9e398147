//! Name handling for key discovery: key file stems and name matching.
use vstd::prelude::*;

verus! {

/// `s` with every occurrence of `pat` removed, scanning from the left and
/// never letting two removed occurrences overlap.
pub open spec fn remove_occurrences(s: Seq<char>, pat: Seq<char>) -> Seq<char>
    decreases s.len(),
{
    if pat.len() == 0 || s.len() < pat.len() {
        s
    } else if s.subrange(0, pat.len() as int) == pat {
        remove_occurrences(s.subrange(pat.len() as int, s.len() as int), pat)
    } else {
        seq![s[0]] + remove_occurrences(s.subrange(1, s.len() as int), pat)
    }
}

/// Whether `pat` occurs in `s` at position `i`.
pub open spec fn occurs_at(s: Seq<char>, pat: Seq<char>, i: int) -> bool {
    0 <= i && i + pat.len() <= s.len() && s.subrange(i, i + pat.len()) == pat
}

/// The stem of a key file's name, from an image file's name: the image's
/// name with every `_decrypted` and then every `_encrypted` removed.
pub open spec fn key_stem_of(name: Seq<char>) -> Seq<char> {
    remove_occurrences(remove_occurrences(name, "_decrypted"@), "_encrypted"@)
}

/// The characters of `s`, in order.
fn chars_of(s: &str) -> (r: Vec<char>)
    ensures
        r@ == s@,
{
    let n = s.unicode_len();
    let mut out: Vec<char> = Vec::new();
    let mut i: usize = 0;
    while i < n
        invariant
            n == s@.len(),
            i <= n,
            out@ == s@.subrange(0, i as int),
        decreases n - i,
    {
        out.push(s.get_char(i));
        i = i + 1;
        assert(out@ =~= s@.subrange(0, i as int));
    }
    out
}

/// Whether `pat` occurs in `s` at position `i`.
fn matches_at(s: &Vec<char>, pat: &Vec<char>, i: usize) -> (r: bool)
    requires
        i <= s@.len(),
    ensures
        r == occurs_at(s@, pat@, i as int),
{
    if pat.len() > s.len() - i {
        return false;
    }
    let mut k: usize = 0;
    while k < pat.len()
        invariant
            i + pat@.len() <= s@.len(),
            s@.len() <= usize::MAX,
            k <= pat@.len(),
            forall|j: int| 0 <= j < k ==> s@[i + j] == pat@[j],
        decreases pat@.len() - k,
    {
        if s[i + k] != pat[k] {
            assert(s@.subrange(i as int, i + pat@.len())[k as int] != pat@[k as int]);
            return false;
        }
        k = k + 1;
    }
    assert(s@.subrange(i as int, i + pat@.len()) =~= pat@);
    true
}

/// `s` with every occurrence of `pat` removed, left to right.
fn remove_all(s: &Vec<char>, pat: &Vec<char>) -> (r: Vec<char>)
    ensures
        r@ == remove_occurrences(s@, pat@),
{
    let mut out: Vec<char> = Vec::new();
    let mut i: usize = 0;
    assert(s@.subrange(0, s@.len() as int) =~= s@);
    while i < s.len()
        invariant
            i <= s@.len(),
            out@ + remove_occurrences(s@.subrange(i as int, s@.len() as int), pat@)
                == remove_occurrences(s@, pat@),
        decreases s@.len() - i,
    {
        let rest = Ghost(s@.subrange(i as int, s@.len() as int));
        if pat.len() > 0 && matches_at(s, pat, i) {
            proof {
                assert(rest@.subrange(0, pat@.len() as int) =~= pat@);
                assert(rest@.subrange(pat@.len() as int, rest@.len() as int) =~= s@.subrange(
                    i + pat@.len(),
                    s@.len() as int,
                ));
            }
            i = i + pat.len();
        } else {
            proof {
                if pat@.len() > 0 && rest@.len() >= pat@.len() {
                    assert(rest@.subrange(0, pat@.len() as int) =~= s@.subrange(
                        i as int,
                        i + pat@.len(),
                    ));
                }
                assert(rest@.subrange(1, rest@.len() as int) =~= s@.subrange(
                    i + 1,
                    s@.len() as int,
                ));
                if pat@.len() == 0 || rest@.len() < pat@.len() {
                    assert(remove_occurrences(rest@, pat@) == rest@);
                    assert(remove_occurrences(rest@.subrange(1, rest@.len() as int), pat@)
                        == rest@.subrange(1, rest@.len() as int));
                    assert(rest@ =~= seq![rest@[0]] + rest@.subrange(1, rest@.len() as int));
                }
            }
            let c = s[i];
            let ghost before = out@;
            out.push(c);
            proof {
                assert(out@ =~= before + seq![c]);
                let tail = remove_occurrences(s@.subrange(i + 1, s@.len() as int), pat@);
                assert(before + (seq![c] + tail) =~= out@ + tail);
            }
            i = i + 1;
        }
    }
    proof {
        assert(s@.subrange(i as int, s@.len() as int) =~= Seq::<char>::empty());
        assert(out@ + Seq::<char>::empty() =~= out@);
    }
    out
}

/// The stem under which an image's key file is looked up: the image file's
/// name with the `_decrypted` and `_encrypted` markers removed.
pub fn key_file_stem(image_name: &str) -> (r: Vec<char>)
    ensures
        r@ == key_stem_of(image_name@),
{
    let name = chars_of(image_name);
    let decrypted = chars_of("_decrypted");
    let encrypted = chars_of("_encrypted");
    let once = remove_all(&name, &decrypted);
    remove_all(&once, &encrypted)
}

/// Whether a file's name holds the game identifier anywhere in it.
pub fn name_contains(file_name: &str, game_name: &str) -> (r: bool)
    ensures
        r == exists|i: int| occurs_at(file_name@, game_name@, i),
{
    let name = chars_of(file_name);
    let game = chars_of(game_name);
    let mut i: usize = 0;
    while i < name.len()
        invariant
            name@ == file_name@,
            game@ == game_name@,
            i <= name@.len(),
            forall|j: int| 0 <= j < i ==> !occurs_at(file_name@, game_name@, j),
        decreases name@.len() + 1 - i,
    {
        if matches_at(&name, &game, i) {
            return true;
        }
        i = i + 1;
    }
    if matches_at(&name, &game, i) {
        return true;
    }
    assert forall|j: int| !occurs_at(file_name@, game_name@, j) by {
        if 0 <= j <= i {
        }
    }
    false
}

} // verus!
