//! Fixed-size names: up to 32 ASCII characters, padded with newlines.
use vstd::prelude::*;
use vstd::string::*;
use vstd::std_specs::iter::IteratorSpec;

use crate::text::string_push;

verus! {

/// A name stored in a fixed array of 32 characters, padded with `'\n'`.
#[derive(Debug, Copy, Clone)]
pub struct NameType {
    name: [char; 32],
}

impl NameType {
    pub closed spec fn spec_chars(&self) -> Seq<char> {
        self.name@
    }
}

/// The characters of `s` before its first newline.
pub open spec fn until_newline(s: Seq<char>) -> Seq<char>
    decreases s.len(),
{
    if s.len() == 0 {
        Seq::empty()
    } else if s[0] == '\n' {
        Seq::empty()
    } else {
        seq![s[0]] + until_newline(s.drop_first())
    }
}

/// `s` padded with newlines to 32 characters.
pub open spec fn padded(s: Seq<char>) -> Seq<char> {
    s + Seq::new((32 - s.len()) as nat, |i: int| '\n')
}

/// Stores a string of at most 32 characters.
pub fn str_to_chars(string: &str) -> (n: NameType)
    requires
        string@.len() <= 32,
    ensures
        n.spec_chars() == padded(string@),
{
    broadcast use vstd::string::axiom_spec_iter, vstd::string::next_postcondition;

    let mut char_slice: [char; 32] = ['\n'; 32];
    let mut chars = string.chars();
    let mut i: usize = 0;
    loop
        invariant
            string@.len() <= 32,
            i <= string@.len(),
            chars.obeys_prophetic_iter_laws(),
            chars.remaining() == string@.skip(i as int),
            char_slice@.len() == 32,
            forall|k: int| 0 <= k < i ==> char_slice@[k] == string@[k],
            forall|k: int| i <= k < 32 ==> char_slice@[k] == '\n',
        ensures
            i == string@.len(),
            forall|k: int| 0 <= k < i ==> char_slice@[k] == string@[k],
            forall|k: int| i <= k < 32 ==> char_slice@[k] == '\n',
        decreases string@.len() - i,
    {
        match chars.next() {
            Some(c) => {
                assert(string@.skip(i as int).len() > 0);
                assert(c == string@[i as int]);
                char_slice[i] = c;
                i = i + 1;
                assert(string@.skip(i as int) =~= string@.skip((i - 1) as int).drop_first());
            },
            None => {
                break;
            },
        }
    }
    assert(char_slice@ =~= padded(string@));
    NameType { name: char_slice }
}

/// The stored name: the characters before the first newline.
pub fn str_from_chars(chars: NameType) -> (s: String)
    ensures
        s@ == until_newline(chars.spec_chars()),
{
    let mut output = String::from_str("");
    proof {
        reveal_strlit("");
    }
    let mut i: usize = 0;
    let ghost all = chars.spec_chars();
    assert(all.skip(0) =~= all);
    assert(output@ + until_newline(all) =~= until_newline(all));
    while i < 32
        invariant
            all == chars.name@,
            all.len() == 32,
            i <= 32,
            forall|k: int| 0 <= k < i ==> all[k] != '\n',
            output@ + until_newline(all.skip(i as int)) == until_newline(all),
            output@ == all.take(i as int),
        decreases 32 - i,
    {
        let c = chars.name[i];
        if c == '\n' {
            assert(until_newline(all.skip(i as int)) == Seq::<char>::empty());
            assert(output@ + Seq::<char>::empty() =~= output@);
            return output;
        }
        proof {
            let rest = all.skip(i as int);
            assert(rest[0] == c);
            assert(rest.drop_first() =~= all.skip(i + 1));
            assert(until_newline(rest) == seq![c] + until_newline(all.skip(i + 1)));
            assert(output@.push(c) + until_newline(all.skip(i + 1)) =~= output@ + until_newline(rest));
        }
        string_push(&mut output, c);
        assert(output@ =~= all.take(i + 1));
        i = i + 1;
    }
    assert(until_newline(all.skip(32)) == Seq::<char>::empty());
    assert(output@ + Seq::<char>::empty() =~= output@);
    output
}

/// Lemma: the characters before the first newline of `s + t`, when `s` has none.
pub proof fn lemma_until_newline_prefix(s: Seq<char>, t: Seq<char>)
    requires
        !s.contains('\n'),
        t.len() > 0 ==> t[0] == '\n',
    ensures
        until_newline(s + t) == s,
    decreases s.len(),
{
    if s.len() == 0 {
        assert(s + t =~= t);
    } else {
        assert((s + t).drop_first() =~= s.drop_first() + t);
        assert(!s.drop_first().contains('\n')) by {
            if s.drop_first().contains('\n') {
                let k = choose|k: int| 0 <= k < s.drop_first().len() && s.drop_first()[k] == '\n';
                assert(s[k + 1] == '\n');
            }
        }
        lemma_until_newline_prefix(s.drop_first(), t);
        assert(s[0] != '\n') by {
            if s[0] == '\n' {
                assert(s.contains('\n'));
            }
        }
        assert(seq![s[0]] + s.drop_first() =~= s);
    }
}

/// A stored name reads back as the string it was made from, for strings of
/// at most 32 characters without newlines.
pub proof fn lemma_name_round_trip(s: Seq<char>)
    requires
        s.len() <= 32,
        !s.contains('\n'),
    ensures
        until_newline(padded(s)) == s,
{
    lemma_until_newline_prefix(s, Seq::new((32 - s.len()) as nat, |i: int| '\n'));
}

} // verus!
