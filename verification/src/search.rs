//! Substring search over document filenames.

use vstd::prelude::*;

use crate::markdown::chars_of;

verus! {

/// Whether `needle` occurs in `s` starting at position `i`.
pub open spec fn match_at(s: Seq<char>, needle: Seq<char>, i: int) -> bool {
    0 <= i && i + needle.len() <= s.len() && s.subrange(i, i + needle.len()) == needle
}

/// Whether `needle` occurs anywhere in `s`.
pub open spec fn contains_seq(s: Seq<char>, needle: Seq<char>) -> bool {
    exists|i: int| match_at(s, needle, i)
}

/// The names that contain the keyword, in their original order.
pub open spec fn search_spec(names: Seq<Seq<char>>, keyword: Seq<char>) -> Seq<Seq<char>> {
    names.filter(|n: Seq<char>| contains_seq(n, keyword))
}

/// Whether `needle` occurs in `s` at position `i`, by character comparison.
fn match_at_exec(s: &Vec<char>, needle: &Vec<char>, i: usize) -> (r: bool)
    requires
        i + needle.len() <= s.len(),
    ensures
        r == match_at(s@, needle@, i as int),
{
    let mut j: usize = 0;
    while j < needle.len()
        invariant
            j <= needle.len(),
            i + needle.len() <= s.len(),
            forall|k: int| 0 <= k < j ==> s@[i + k] == needle@[k],
        decreases needle.len() - j,
    {
        if s[i + j] != needle[j] {
            proof {
                assert(s@.subrange(i as int, i + needle.len()) != needle@) by {
                    assert(s@.subrange(i as int, i + needle.len())[j as int] == s@[i + j]);
                }
            }
            return false;
        }
        j = j + 1;
    }
    proof {
        assert(s@.subrange(i as int, i + needle.len()) =~= needle@);
    }
    true
}

/// Whether `needle` occurs anywhere in `s`, by scan.
fn contains_exec(s: &Vec<char>, needle: &Vec<char>) -> (r: bool)
    ensures
        r == contains_seq(s@, needle@),
{
    if needle.len() > s.len() {
        proof {
            assert(forall|i: int| !match_at(s@, needle@, i));
        }
        return false;
    }
    if needle.len() == 0 {
        proof {
            assert(s@.subrange(0, 0) =~= needle@);
            assert(match_at(s@, needle@, 0));
        }
        return true;
    }
    let last = s.len() - needle.len();
    let mut i: usize = 0;
    while i <= last
        invariant
            last == s.len() - needle.len(),
            0 < needle.len() <= s.len(),
            i <= last + 1,
            forall|k: int| 0 <= k < i ==> !match_at(s@, needle@, k),
        decreases last - i + 1,
    {
        if match_at_exec(s, needle, i) {
            proof {
                assert(match_at(s@, needle@, i as int));
            }
            return true;
        }
        i = i + 1;
    }
    proof {
        assert(forall|k: int| k > last ==> !match_at(s@, needle@, k));
        assert(!contains_seq(s@, needle@));
    }
    false
}

/// Lists the names that contain the keyword, keeping their original order.
pub fn search_names(names: &Vec<String>, keyword: &str) -> (r: Vec<String>)
    ensures
        r.deep_view() == search_spec(names.deep_view(), keyword@),
{
    let needle = chars_of(keyword);
    let mut r: Vec<String> = Vec::new();
    let mut i: usize = 0;
    proof {
        reveal(Seq::<Seq<char>>::filter);
        assert(names.deep_view().take(0) =~= Seq::<Seq<char>>::empty());
        assert(r.deep_view() =~= search_spec(names.deep_view().take(0), keyword@));
    }
    while i < names.len()
        invariant
            i <= names.len(),
            needle@ == keyword@,
            r.deep_view() == search_spec(names.deep_view().take(i as int), keyword@),
        decreases names.len() - i,
    {
        let cs = chars_of(names[i].as_str());
        let ghost pre = r.deep_view();
        let hit = contains_exec(&cs, &needle);
        if hit {
            r.push(names[i].clone());
        }
        proof {
            reveal(Seq::<Seq<char>>::filter);
            let taken = names.deep_view().take(i as int + 1);
            assert(taken.drop_last() =~= names.deep_view().take(i as int));
            assert(taken.last() == names.deep_view()[i as int]);
            assert(names.deep_view()[i as int] == names@[i as int]@);
            if hit {
                assert(r.deep_view() =~= pre.push(names@[i as int]@));
            }
            assert(r.deep_view() =~= search_spec(taken, keyword@));
        }
        i = i + 1;
    }
    proof {
        assert(names.deep_view().take(names.deep_view().len() as int) =~= names.deep_view());
    }
    r
}

} // verus!
