use vstd::prelude::*;

verus! {

/// `prefix` is a prefix of `word`.
pub open spec fn is_prefix(prefix: Seq<char>, word: Seq<char>) -> bool {
    &&& prefix.len() <= word.len()
    &&& forall|i: int| 0 <= i < prefix.len() ==> prefix[i] == word[i]
}

/// A key reported pressed during one tick.
#[derive(Clone, Copy, Debug, PartialEq, Eq, Structural)]
pub enum Key {
    /// A character key; only the lowercase letters `a` to `z` type anything.
    Letter(char),
    /// Backspace: removes the last typed character.
    Back,
}

pub open spec fn is_typing_letter(c: char) -> bool {
    'a' <= c <= 'z'
}

/// The buffer after one key.
pub open spec fn apply_key(buffer: Seq<char>, key: Key) -> Seq<char> {
    match key {
        Key::Letter(c) => if is_typing_letter(c) {
            buffer.push(c)
        } else {
            buffer
        },
        Key::Back => if buffer.len() > 0 {
            buffer.drop_last()
        } else {
            buffer
        },
    }
}

/// The buffer after the keys, taken in order.
pub open spec fn apply_keys(buffer: Seq<char>, keys: Seq<Key>) -> Seq<char>
    decreases keys.len(),
{
    if keys.len() == 0 {
        buffer
    } else {
        apply_key(apply_keys(buffer, keys.drop_last()), keys.last())
    }
}

/// Relies on `String::push`: the character is appended at the end.
#[verifier::external_body]
pub(crate) fn push_char(s: &mut String, c: char)
    ensures
        final(s)@ == old(s)@.push(c),
{
    s.push(c)
}

/// Relies on `String::pop`: the last character, if any, is removed and returned.
#[verifier::external_body]
pub(crate) fn pop_char(s: &mut String) -> (r: Option<char>)
    ensures
        old(s)@.len() == 0 ==> r is None && final(s)@ == old(s)@,
        old(s)@.len() > 0 ==> r == Some(old(s)@.last()) && final(s)@ == old(s)@.drop_last(),
{
    s.pop()
}

/// Number of characters of `s`.
pub fn char_len(s: &String) -> (r: usize)
    ensures
        r == s@.len(),
{
    s.as_str().unicode_len()
}

/// Whether `word` starts with `prefix`.
pub fn starts_with(word: &String, prefix: &String) -> (r: bool)
    ensures
        r == is_prefix(prefix@, word@),
{
    let w = word.as_str();
    let p = prefix.as_str();
    let wn = w.unicode_len();
    let pn = p.unicode_len();
    if pn > wn {
        return false;
    }
    let mut i: usize = 0;
    while i < pn
        invariant
            pn == p@.len(),
            wn == w@.len(),
            pn <= wn,
            i <= pn,
            p@ == prefix@,
            w@ == word@,
            forall|j: int| 0 <= j < i ==> p@[j] == w@[j],
        decreases pn - i,
    {
        if p.get_char(i) != w.get_char(i) {
            return false;
        }
        i = i + 1;
    }
    true
}

/// The buffer after the keys of one tick, in the order given.
pub fn typed_candidate(buffer: &String, keys: &Vec<Key>) -> (r: String)
    ensures
        r@ == apply_keys(buffer@, keys@),
{
    let mut out = buffer.clone();
    let mut i: usize = 0;
    while i < keys.len()
        invariant
            i <= keys.len(),
            out@ == apply_keys(buffer@, keys@.subrange(0, i as int)),
        decreases keys.len() - i,
    {
        proof {
            assert(keys@.subrange(0, i + 1).drop_last() =~= keys@.subrange(0, i as int));
        }
        match keys[i] {
            Key::Letter(c) => {
                if 'a' <= c && c <= 'z' {
                    push_char(&mut out, c);
                }
            },
            Key::Back => {
                let _ = pop_char(&mut out);
            },
        }
        i = i + 1;
    }
    proof {
        assert(keys@.subrange(0, keys@.len() as int) =~= keys@);
    }
    out
}

/// How many leading characters of a word are shown as typed: the whole
/// buffer where the word starts with it, none otherwise.
pub fn highlighted_len(word: &String, buffer: &String) -> (r: usize)
    ensures
        is_prefix(buffer@, word@) ==> r == buffer@.len() && r <= word@.len(),
        !is_prefix(buffer@, word@) ==> r == 0,
{
    if starts_with(word, buffer) {
        char_len(buffer)
    } else {
        0
    }
}

/// Styles of a word's characters, the first `max_character_index` in
/// `highlight`, the others in `base`.
pub fn highlight_characters<C: Copy>(
    sections: &Vec<C>,
    max_character_index: usize,
    highlight: C,
    base: C,
) -> (r: Vec<C>)
    requires
        max_character_index <= sections@.len(),
    ensures
        r@.len() == sections@.len(),
        forall|i: int| 0 <= i < max_character_index ==> r@[i] == highlight,
        forall|i: int| max_character_index <= i < r@.len() ==> r@[i] == base,
{
    let mut out: Vec<C> = Vec::new();
    let mut i: usize = 0;
    while i < sections.len()
        invariant
            i <= sections@.len(),
            max_character_index <= sections@.len(),
            out@.len() == i,
            forall|j: int| 0 <= j < i && j < max_character_index ==> out@[j] == highlight,
            forall|j: int| max_character_index <= j < i ==> out@[j] == base,
        decreases sections@.len() - i,
    {
        if i < max_character_index {
            out.push(highlight);
        } else {
            out.push(base);
        }
        i = i + 1;
    }
    out
}

/// Styles of a word's characters, all in `color`.
pub fn remove_highlight<C: Copy>(sections: &Vec<C>, color: C) -> (r: Vec<C>)
    ensures
        r@.len() == sections@.len(),
        forall|i: int| 0 <= i < r@.len() ==> r@[i] == color,
{
    highlight_characters(sections, 0, color, color)
}

} // verus!
