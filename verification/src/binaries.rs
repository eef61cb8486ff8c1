//! Names of the external binaries of a bundle, suffixed with the target
//! triple that they were built for.

use vstd::prelude::*;
use vstd::string::*;

verus! {

broadcast use vstd::string::group_string_axioms;

/// `word` stands in `text` at position `at`.
pub open spec fn occurs_at(text: Seq<char>, word: Seq<char>, at: int) -> bool {
    0 <= at && at + word.len() <= text.len() && text.subrange(at, at + word.len()) == word
}

/// `word` stands somewhere in `text`.
pub open spec fn occurs_in(text: Seq<char>, word: Seq<char>) -> bool {
    exists|at: int| occurs_at(text, word, at)
}

/// The characters of a text, in order.
fn chars_of(text: &str) -> (chars: Vec<char>)
    ensures
        chars@ == text@,
{
    let mut chars: Vec<char> = Vec::new();
    for c in it: text.chars()
        invariant
            it.seq() == text@,
            chars@ == it.seq().take(it.index() as int),
    {
        chars.push(c);
    }
    chars
}

/// Whether `word` stands in `text` at position `at`.
fn matches_at(text: &Vec<char>, word: &Vec<char>, at: usize) -> (found: bool)
    requires
        at + word.len() <= text.len(),
    ensures
        found == occurs_at(text@, word@, at as int),
{
    let mut k: usize = 0;
    while k < word.len()
        invariant
            k <= word.len(),
            at + word.len() <= text.len(),
            forall|j: int| 0 <= j < k ==> text@[at + j] == word@[j],
        decreases word.len() - k,
    {
        if text[at + k] != word[k] {
            assert(text@.subrange(at as int, at + word.len())[k as int] != word@[k as int]);
            return false;
        }
        k += 1;
    }
    assert(text@.subrange(at as int, at + word.len()) =~= word@);
    true
}

/// Whether `word` stands somewhere in `text`.
fn contains_word(text: &str, word: &str) -> (found: bool)
    ensures
        found == occurs_in(text@, word@),
{
    let haystack = chars_of(text);
    let needle = chars_of(word);
    if needle.len() > haystack.len() {
        return false;
    }
    let last: usize = haystack.len() - needle.len();
    let mut at: usize = 0;
    loop
        invariant
            haystack@ == text@,
            needle@ == word@,
            last == haystack.len() - needle.len(),
            at <= last,
            forall|i: int| 0 <= i < at ==> !occurs_at(text@, word@, i),
        decreases last - at,
    {
        if matches_at(&haystack, &needle, at) {
            return true;
        }
        if at == last {
            return false;
        }
        at += 1;
    }
}

/// The word whose presence in a target triple marks a Windows target.
pub open spec fn windows_word() -> Seq<char> {
    seq!['w', 'i', 'n', 'd', 'o', 'w', 's']
}

/// The name of a binary for a target triple: the base name, a hyphen, the
/// triple, and `.exe` where the triple names Windows.
pub open spec fn suffixed(name: Seq<char>, triple: Seq<char>) -> Seq<char> {
    name + seq!['-'] + triple + if occurs_in(triple, windows_word()) {
        seq!['.', 'e', 'x', 'e']
    } else {
        Seq::empty()
    }
}

/// Parses the external binaries to bundle, adding the target triple suffix
/// to each of them.
pub fn external_binaries(names: &[String], target_triple: &str) -> (paths: Vec<String>)
    ensures
        paths.len() == names.len(),
        forall|i: int|
            0 <= i < paths.len() ==> (#[trigger] paths[i])@ == suffixed(
                names[i]@,
                target_triple@,
            ),
{
    proof {
        reveal_strlit("windows");
        reveal_strlit("-");
        reveal_strlit(".exe");
        assert("windows"@ =~= windows_word());
        assert("-"@ =~= seq!['-']);
        assert(".exe"@ =~= seq!['.', 'e', 'x', 'e']);
    }
    let windows = contains_word(target_triple, "windows");
    let mut paths: Vec<String> = Vec::new();
    let mut i: usize = 0;
    while i < names.len()
        invariant
            i <= names.len(),
            paths.len() == i,
            windows == occurs_in(target_triple@, windows_word()),
            "-"@ == seq!['-'],
            ".exe"@ == seq!['.', 'e', 'x', 'e'],
            forall|j: int|
                0 <= j < i ==> (#[trigger] paths[j])@ == suffixed(
                    names[j]@,
                    target_triple@,
                ),
        decreases names.len() - i,
    {
        let mut path = names[i].clone();
        path.append("-");
        path.append(target_triple);
        if windows {
            path.append(".exe");
        }
        assert(path@ =~= suffixed(names[i as int]@, target_triple@));
        paths.push(path);
        i += 1;
    }
    paths
}

} // verus!
