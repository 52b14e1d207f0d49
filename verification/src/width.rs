//! Terminal column widths: clipping a text to a width, and finding which
//! footer button a column falls on. Widths come from `unicode-width`.
use vstd::prelude::*;

use crate::text::{chars_of, push_char};

verus! {

/// `UnicodeWidthStr::width(text)`: the columns a text takes.
pub uninterp spec fn str_cols(text: Seq<char>) -> usize;

/// `UnicodeWidthChar::width(c)`: the columns a character takes, `None` for
/// a control character.
pub uninterp spec fn char_cols(c: char) -> Option<usize>;

/// Calls `unicode_width::UnicodeWidthStr::width`. The contract claims only
/// that the answer is the name `str_cols` applied to the text.
#[verifier::external_body]
fn text_width(text: &str) -> (r: usize)
    ensures
        r == str_cols(text@),
{
    unicode_width::UnicodeWidthStr::width(text)
}

/// Calls `unicode_width::UnicodeWidthChar::width`. The contract claims only
/// that the answer is the name `char_cols` applied to the character.
#[verifier::external_body]
fn char_width(c: char) -> (r: Option<usize>)
    ensures
        r == char_cols(c),
{
    unicode_width::UnicodeWidthChar::width(c)
}

/// A character's columns, a control character taking none.
pub open spec fn cols_of(c: char) -> int {
    match char_cols(c) {
        Some(w) => w as int,
        None => 0,
    }
}

/// The longest start of `s` whose columns, added to `used`, stay within
/// `budget`.
pub open spec fn kept(s: Seq<char>, budget: int, used: int) -> Seq<char>
    decreases s.len(),
{
    if s.len() == 0 || used + cols_of(s[0]) > budget {
        Seq::empty()
    } else {
        seq![s[0]] + kept(s.drop_first(), budget, used + cols_of(s[0]))
    }
}

/// `text` clipped to `max` columns: whole when it fits, else its longest
/// start that leaves a column for `…`, followed by `…`.
pub open spec fn truncated(text: Seq<char>, max: int) -> Seq<char> {
    if max == 0 {
        Seq::empty()
    } else if str_cols(text) <= max {
        text
    } else if max == 1 {
        seq!['…']
    } else {
        kept(text, max - 1, 0).push('…')
    }
}

proof fn lemma_kept_step(s: Seq<char>, i: int, budget: int, used: int)
    requires
        0 <= i < s.len(),
        used + cols_of(s[i]) <= budget,
        kept(s, budget, 0) == s.take(i) + kept(s.skip(i), budget, used),
    ensures
        kept(s, budget, 0) == s.take(i + 1) + kept(s.skip(i + 1), budget, used + cols_of(s[i])),
{
    let rest = s.skip(i);
    assert(rest[0] == s[i]);
    assert(rest.drop_first() =~= s.skip(i + 1));
    assert(s.take(i + 1) =~= s.take(i) + seq![s[i]]);
    assert(s.take(i) + (seq![s[i]] + kept(s.skip(i + 1), budget, used + cols_of(s[i]))) =~= s.take(i + 1) + kept(
        s.skip(i + 1),
        budget,
        used + cols_of(s[i]),
    ));
}

/// Clips `text` to `max_width` columns, marking a cut with `…`.
pub fn truncate_with_ellipsis(text: &str, max_width: usize) -> (r: String)
    ensures
        r@ == truncated(text@, max_width as int),
{
    if max_width == 0 {
        return String::new();
    }
    if text_width(text) <= max_width {
        return text.to_owned();
    }
    let mut clipped = String::new();
    if max_width == 1 {
        push_char(&mut clipped, '…');
        return clipped;
    }
    let chars = chars_of(text);
    let keep_width = max_width - 1;
    let ghost s = text@;
    let mut used: usize = 0;
    let mut i: usize = 0;
    let mut stop = false;
    assert(s.skip(0) =~= s);
    assert(s.take(0) + kept(s.skip(0), keep_width as int, 0) =~= kept(s, keep_width as int, 0));
    while i < chars.len() && !stop
        invariant
            chars@ == s,
            i <= s.len(),
            used <= keep_width,
            keep_width == max_width - 1,
            clipped@ == s.take(i as int),
            stop ==> kept(s, keep_width as int, 0) == s.take(i as int),
            !stop ==> kept(s, keep_width as int, 0) == s.take(i as int) + kept(s.skip(i as int), keep_width as int, used as int),
        decreases s.len() - i, (if stop { 0int } else { 1int }),
    {
        let c = chars[i];
        let w: usize = match char_width(c) {
            Some(w) => w,
            None => 0,
        };
        if w > keep_width - used {
            proof {
                let rest = s.skip(i as int);
                assert(rest[0] == s[i as int]);
                assert(kept(rest, keep_width as int, used as int) =~= Seq::empty());
                assert(s.take(i as int) + Seq::<char>::empty() =~= s.take(i as int));
            }
            stop = true;
        } else {
            proof {
                lemma_kept_step(s, i as int, keep_width as int, used as int);
            }
            push_char(&mut clipped, c);
            used = used + w;
            i = i + 1;
            assert(clipped@ =~= s.take(i as int));
        }
    }
    proof {
        if !stop {
            assert(s.skip(i as int) =~= Seq::<char>::empty());
            assert(s.take(i as int) + Seq::<char>::empty() =~= s.take(i as int));
        }
    }
    push_char(&mut clipped, '…');
    clipped
}

/// One button of the key footer.
#[derive(Debug, Clone, Copy)]
pub struct KeyBinding<'a> {
    pub key: &'a str,
    pub label: &'a str,
}

/// The confirm button is drawn after a `| ` separator.
pub open spec fn is_primary(b: KeyBinding) -> bool {
    b.key@ == "C"@ && b.label@ == "confirm"@
}

fn is_primary_action(binding: &KeyBinding) -> (r: bool)
    ensures
        r == is_primary(*binding),
{
    crate::text::str_eq(binding.key, "C") && crate::text::str_eq(binding.label, "confirm")
}

/// The columns a button takes: ` key ` and ` label`.
pub open spec fn button_cols(b: KeyBinding) -> int {
    str_cols(b.key@) + str_cols(b.label@) + 3
}

/// The button, from the `i`-th on, whose columns hold `column`, the
/// buttons before the `i`-th ending at `cursor`: buttons are one column
/// apart, and the confirm button starts two columns later.
pub open spec fn hit_from(bs: Seq<KeyBinding>, i: int, cursor: int, column: int) -> Option<int>
    decreases bs.len() - i,
{
    if i < 0 || i >= bs.len() {
        None
    } else {
        let start = cursor + (if i > 0 { 1int } else { 0int }) + (if is_primary(bs[i]) { 2int } else { 0int });
        if column >= start && column < start + button_cols(bs[i]) {
            Some(i)
        } else {
            hit_from(bs, i + 1, start + button_cols(bs[i]), column)
        }
    }
}

proof fn lemma_hit_past(bs: Seq<KeyBinding>, i: int, cursor: int, column: int)
    requires
        0 <= i,
        cursor > column,
    ensures
        hit_from(bs, i, cursor, column) is None,
    decreases bs.len() - i,
{
    if i < bs.len() {
        let start = cursor + (if i > 0 { 1int } else { 0int }) + (if is_primary(bs[i]) { 2int } else { 0int });
        lemma_hit_past(bs, i + 1, start + button_cols(bs[i]), column);
    }
}

/// Which footer button the column falls on, if any.
pub fn key_footer_hit(bindings: &[KeyBinding], column: u16) -> (r: Option<usize>)
    ensures
        match r {
            Some(i) => hit_from(bindings@, 0, 0, column as int) == Some(i as int),
            None => hit_from(bindings@, 0, 0, column as int) is None,
        },
{
    let col = column as usize;
    let mut cursor: usize = 0;
    let mut i: usize = 0;
    while i < bindings.len()
        invariant
            i <= bindings@.len(),
            col <= 65535,
            col == column as usize,
            cursor <= col,
            hit_from(bindings@, 0, 0, col as int) == hit_from(bindings@, i as int, cursor as int, col as int),
        decreases bindings@.len() - i,
    {
        let b = &bindings[i];
        let mut start = cursor;
        if i > 0 {
            start = start + 1;
        }
        if is_primary_action(b) {
            start = start + 2;
        }
        if start > col {
            proof {
                let bw = button_cols(bindings@[i as int]);
                lemma_hit_past(bindings@, i + 1, start + bw, col as int);
                assert(hit_from(bindings@, i as int, cursor as int, col as int) == hit_from(
                    bindings@,
                    i + 1,
                    start + bw,
                    col as int,
                ));
            }
            return None;
        }
        let key_w = text_width(b.key);
        let label_w = text_width(b.label);
        let width = key_w.saturating_add(label_w).saturating_add(3);
        let end = start.saturating_add(width);
        let ghost bw = button_cols(bindings@[i as int]);
        assert(start == cursor + (if i > 0 { 1int } else { 0int }) + (if is_primary(bindings@[i as int]) { 2int } else { 0int }));
        assert(col < end <==> col < start + bw);
        if col < end {
            assert(hit_from(bindings@, i as int, cursor as int, col as int) == Some(i as int));
            return Some(i);
        }
        assert(end == start + bw);
        cursor = end;
        i = i + 1;
    }
    None
}

} // verus!
