//! The name of a transport in a configuration.

use vstd::prelude::*;

use crate::text::{ascii_lower, is_white_space, to_ascii_lower, trim, trimmed, own};
use crate::text::{ascii_lower_char, trimmed_end, trimmed_start};

verus! {

/// The word that a configuration gives for the transport: "udp" where it gives
/// none, and otherwise without the white space around it and in small letters.
pub open spec fn transport_word(v: Option<Seq<char>>) -> Seq<char> {
    ascii_lower(
        trimmed(
            match v {
                Some(text) => text,
                None => "udp"@,
            },
        ),
    )
}

/// A transport that there is not.
#[derive(Debug)]
pub struct UnsupportedTransport {
    /// The word that was given.
    pub word: String,
}

impl UnsupportedTransport {
    /// The error in words.
    pub fn message(&self) -> (r: String)
        ensures
            r@ == "unsupported transport: "@ + self.word@ + " (expected udp|tcp)"@,
    {
        own("unsupported transport: ").concat(self.word.as_str()).concat(" (expected udp|tcp)")
    }
}

/// The text of an optional setting.
pub open spec fn setting(v: Option<&str>) -> Option<Seq<char>> {
    match v {
        Some(text) => Some(text@),
        None => None,
    }
}

/// The text of an optional field.
pub open spec fn optional_text(v: Option<String>) -> Option<Seq<char>> {
    match v {
        Some(text) => Some(text@),
        None => None,
    }
}

/// The word that a configuration gives for the transport.
pub(crate) fn word(v: Option<&str>) -> (r: String)
    ensures
        r@ == transport_word(setting(v)),
{
    let text = match v {
        Some(text) => text,
        None => "udp",
    };
    to_ascii_lower(trim(text).as_str())
}

/// A text in small letters with no white space at its ends is the word itself.
pub proof fn law_plain_text_is_the_word(s: Seq<char>)
    requires
        s.len() > 0 ==> !is_white_space(s[0]) && !is_white_space(s.last()),
        forall|i: int| 0 <= i < s.len() ==> !(65 <= (#[trigger] s[i]) as u32 <= 90),
    ensures
        transport_word(Some(s)) == s,
{
    assert(trimmed_start(s) == s);
    assert(trimmed_end(s) == s);
    assert(ascii_lower(s) =~= s);
}

/// No transport given is the word "udp".
pub proof fn law_default_transport()
    ensures
        transport_word(None) == "udp"@,
{
    reveal_strlit("udp");
    let s = "udp"@;
    assert(trimmed_start(s) == s);
    assert(trimmed_end(s) == s);
    assert(ascii_lower(s) =~= s);
}

proof fn lemma_lower_keeps_white_space(c: char)
    ensures
        is_white_space(ascii_lower_char(c)) == is_white_space(c),
        ascii_lower_char(ascii_lower_char(c)) == ascii_lower_char(c),
{
}

proof fn lemma_lower_trim_start(s: Seq<char>)
    ensures
        trimmed_start(ascii_lower(s)) == ascii_lower(trimmed_start(s)),
    decreases s.len(),
{
    if s.len() > 0 {
        lemma_lower_keeps_white_space(s[0]);
        if is_white_space(s[0]) {
            assert(ascii_lower(s).skip(1) =~= ascii_lower(s.skip(1)));
            lemma_lower_trim_start(s.skip(1));
        }
    }
}

proof fn lemma_lower_trim_end(s: Seq<char>)
    ensures
        trimmed_end(ascii_lower(s)) == ascii_lower(trimmed_end(s)),
    decreases s.len(),
{
    if s.len() > 0 {
        lemma_lower_keeps_white_space(s.last());
        if is_white_space(s.last()) {
            assert(ascii_lower(s).drop_last() =~= ascii_lower(s.drop_last()));
            lemma_lower_trim_end(s.drop_last());
        }
    }
}

/// The case of ASCII letters does not matter: texts that differ in nothing else
/// give the same word.
pub proof fn law_transport_ignores_case(a: Seq<char>, b: Seq<char>)
    requires
        ascii_lower(a) == ascii_lower(b),
    ensures
        transport_word(Some(a)) == transport_word(Some(b)),
{
    lemma_lower_trim_start(a);
    lemma_lower_trim_start(b);
    lemma_lower_trim_end(trimmed_start(a));
    lemma_lower_trim_end(trimmed_start(b));
}

proof fn lemma_trim_start_ignores(front: Seq<char>, s: Seq<char>)
    requires
        forall|i: int| 0 <= i < front.len() ==> is_white_space(#[trigger] front[i]),
    ensures
        trimmed_start(front + s) == trimmed_start(s),
    decreases front.len(),
{
    if front.len() == 0 {
        assert(front + s =~= s);
    } else {
        assert((front + s).skip(1) =~= front.skip(1) + s);
        assert((front + s)[0] == front[0]);
        lemma_trim_start_ignores(front.skip(1), s);
    }
}

proof fn lemma_trim_end_ignores(s: Seq<char>, back: Seq<char>)
    requires
        forall|i: int| 0 <= i < back.len() ==> is_white_space(#[trigger] back[i]),
    ensures
        trimmed_end(s + back) == trimmed_end(s),
    decreases back.len(),
{
    if back.len() == 0 {
        assert(s + back =~= s);
    } else {
        assert((s + back).drop_last() =~= s + back.drop_last());
        assert((s + back).last() == back[back.len() - 1]);
        lemma_trim_end_ignores(s, back.drop_last());
    }
}

proof fn lemma_trim_start_of_end(s: Seq<char>, back: Seq<char>)
    requires
        forall|i: int| 0 <= i < back.len() ==> is_white_space(#[trigger] back[i]),
    ensures
        trimmed_end(trimmed_start(s + back)) == trimmed_end(trimmed_start(s)),
    decreases s.len(),
{
    if s.len() == 0 {
        assert(s + back =~= back + s);
        lemma_trim_start_ignores(back, s);
    } else if is_white_space(s[0]) {
        assert((s + back)[0] == s[0]);
        assert((s + back).skip(1) =~= s.skip(1) + back);
        lemma_trim_start_of_end(s.skip(1), back);
    } else {
        assert((s + back)[0] == s[0]);
        lemma_trim_end_ignores(s, back);
    }
}

/// White space around the text does not matter.
pub proof fn law_transport_ignores_white_space(front: Seq<char>, s: Seq<char>, back: Seq<char>)
    requires
        forall|i: int| 0 <= i < front.len() ==> is_white_space(#[trigger] front[i]),
        forall|i: int| 0 <= i < back.len() ==> is_white_space(#[trigger] back[i]),
    ensures
        transport_word(Some(front + s + back)) == transport_word(Some(s)),
{
    assert(front + s + back =~= front + (s + back));
    lemma_trim_start_ignores(front, s + back);
    lemma_trim_start_of_end(s, back);
}

} // verus!
