//! Editing state of the one-line and multi-line text inputs, driven by
//! raw key events. The text is held as characters with the cursor between
//! two of them; where the inputs measure positions in UTF-8 bytes (a
//! value replaced under the cursor), the byte offset of the cursor is
//! derived from the characters before it.

use crate::text::{chars_of, opt_text, split, split_chars, string_from, string_of};
use vstd::prelude::*;

verus! {

/// Bytes of the character's UTF-8 encoding.
pub open spec fn utf8_width(c: char) -> nat {
    if (c as u32) < 0x80 {
        1
    } else if (c as u32) < 0x800 {
        2
    } else if (c as u32) < 0x10000 {
        3
    } else {
        4
    }
}

/// Bytes of the text's UTF-8 encoding.
pub open spec fn byte_len(s: Seq<char>) -> nat
    decreases s.len(),
{
    if s.len() == 0 {
        0
    } else {
        byte_len(s.drop_last()) + utf8_width(s.last())
    }
}

/// How many leading characters of `s` fit, whole, in `budget` bytes.
pub open spec fn chars_within(s: Seq<char>, budget: int) -> nat
    decreases s.len(),
{
    if s.len() == 0 || utf8_width(s[0]) > budget {
        0
    } else {
        1 + chars_within(s.drop_first(), budget - utf8_width(s[0]))
    }
}

/// The byte offset `b` falls between two characters of `s` (or past its
/// end).
pub open spec fn on_boundary(s: Seq<char>, b: int) -> bool {
    b >= byte_len(s) || byte_len(s.take(chars_within(s, b) as int)) == b
}

/// `s` with `c` inserted at position `at`.
pub open spec fn inserted(s: Seq<char>, at: int, c: char) -> Seq<char> {
    s.take(at) + seq![c] + s.skip(at)
}

/// `s` without the character at position `at`.
pub open spec fn removed(s: Seq<char>, at: int) -> Seq<char> {
    s.take(at) + s.skip(at + 1)
}

proof fn lemma_byte_len_bound(s: Seq<char>)
    ensures
        byte_len(s) <= 4 * s.len(),
    decreases s.len(),
{
    if s.len() > 0 {
        lemma_byte_len_bound(s.drop_last());
    }
}

/// Bytes of the character's UTF-8 encoding.
fn width(c: char) -> (w: u128)
    ensures
        w == utf8_width(c),
{
    let u = c as u32;
    if u < 0x80 {
        1
    } else if u < 0x800 {
        2
    } else if u < 0x10000 {
        3
    } else {
        4
    }
}

/// Bytes of the encoding of the first `k` characters.
fn prefix_bytes(v: &Vec<char>, k: usize) -> (b: u128)
    requires
        k <= v.len(),
    ensures
        b == byte_len(v@.take(k as int)),
{
    let mut b: u128 = 0;
    let mut i: usize = 0;
    proof {
        assert(v@.take(0) =~= Seq::<char>::empty());
    }
    while i < k
        invariant
            i <= k <= v.len(),
            b == byte_len(v@.take(i as int)),
            b <= 4 * i,
        decreases k - i,
    {
        proof {
            assert(v@.take(i + 1).drop_last() =~= v@.take(i as int));
            assert(v@.take(i + 1).last() == v@[i as int]);
        }
        b = b + width(v[i]);
        i += 1;
    }
    b
}

/// How many leading characters of `v` fit, whole, in `budget` bytes.
fn fitting(v: &Vec<char>, budget: u128) -> (k: usize)
    ensures
        k == chars_within(v@, budget as int),
        k <= v.len(),
{
    let mut k: usize = 0;
    let mut left: u128 = budget;
    proof {
        assert(v@.skip(0) =~= v@);
    }
    while k < v.len() && width(v[k]) <= left
        invariant
            k <= v.len(),
            left <= budget,
            chars_within(v@, budget as int) == k + chars_within(v@.skip(k as int), left as int),
        decreases v.len() - k,
    {
        proof {
            assert(v@.skip(k as int)[0] == v@[k as int]);
            assert(v@.skip(k as int).drop_first() =~= v@.skip(k + 1));
        }
        left = left - width(v[k]);
        k += 1;
    }
    proof {
        if k < v.len() {
            assert(v@.skip(k as int)[0] == v@[k as int]);
        }
    }
    k
}

/// The displayed text of an input: the value with a bar at the cursor
/// while focused.
pub open spec fn with_bar(s: Seq<char>, at: int, focused: bool) -> Seq<char> {
    if focused {
        s.take(at) + "|"@ + s.skip(at)
    } else {
        s
    }
}

/// One-line text input.
pub struct TextField {
    chars: Vec<char>,
    at: usize,
    placeholder: String,
}

/// The editable state: the text and the cursor's character position.
pub struct EditorView {
    pub text: Seq<char>,
    pub at: nat,
}

impl View for TextField {
    type V = EditorView;

    closed spec fn view(&self) -> EditorView {
        EditorView { text: self.chars@, at: self.at as nat }
    }
}

impl TextField {
    #[verifier::type_invariant]
    spec fn cursor_in_text(&self) -> bool {
        self.at <= self.chars@.len()
    }

    /// The placeholder shown while the field is empty.
    pub closed spec fn hint(&self) -> Seq<char> {
        self.placeholder@
    }

    /// The cursor's byte offset in the value.
    pub open spec fn offset(&self) -> nat {
        byte_len(self@.text.take(self@.at as int))
    }

    /// Moves the text out, leaving the field empty.
    fn take_chars(&mut self) -> (v: Vec<char>)
        ensures
            v@ == old(self).chars@,
            final(self).chars@.len() == 0,
            final(self).at == 0,
            final(self).placeholder == old(self).placeholder,
    {
        self.at = 0;
        let mut v: Vec<char> = Vec::new();
        std::mem::swap(&mut v, &mut self.chars);
        v
    }

    /// An empty field with a placeholder.
    pub fn new(placeholder: &str) -> (f: Self)
        ensures
            f@.text.len() == 0,
            f@.at == 0,
            f.hint() == placeholder@,
    {
        TextField { chars: Vec::new(), at: 0, placeholder: String::from_str(placeholder) }
    }

    /// The value.
    pub fn value(&self) -> (s: String)
        ensures
            s@ == self@.text,
    {
        string_from(&self.chars)
    }

    /// Replaces the value. The cursor keeps its byte offset, pulled back
    /// to the value's end; the offset must fall between two characters
    /// of the new value.
    pub fn set_value(&mut self, v: &str)
        requires
            on_boundary(v@, old(self).offset() as int),
        ensures
            final(self)@.text == v@,
            final(self)@.at == chars_within(v@, old(self).offset() as int),
            final(self).hint() == old(self).hint(),
    {
        proof {
            use_type_invariant(&*self);
        }
        let b = prefix_bytes(&self.chars, self.at);
        let chars = chars_of(v);
        let at = fitting(&chars, b);
        self.at = 0;
        self.chars = chars;
        self.at = at;
    }

    /// Whether the cursor's byte offset falls between two characters of
    /// `v` (or past its end), so that `set_value(v)` can keep it.
    pub fn fits(&self, v: &str) -> (b: bool)
        ensures
            b == on_boundary(v@, self.offset() as int),
    {
        proof {
            use_type_invariant(self);
        }
        let b = prefix_bytes(&self.chars, self.at);
        let chars = chars_of(v);
        proof {
            assert(chars@.take(chars@.len() as int) =~= chars@);
        }
        let total = prefix_bytes(&chars, chars.len());
        if b >= total {
            true
        } else {
            let k = fitting(&chars, b);
            prefix_bytes(&chars, k) == b
        }
    }

    /// Types a character at the cursor.
    pub fn insert(&mut self, ch: char)
        ensures
            final(self)@.text == inserted(old(self)@.text, old(self)@.at as int, ch),
            final(self)@.at == old(self)@.at + 1,
            final(self).hint() == old(self).hint(),
    {
        proof {
            use_type_invariant(&*self);
        }
        let at = self.at;
        let mut chars = self.take_chars();
        chars.insert(at, ch);
        let n = chars.len();
        assert(at < n);
        self.chars = chars;
        self.at = at + 1;
        proof {
            assert(self.chars@ =~= inserted(old(self)@.text, old(self)@.at as int, ch));
        }
    }

    /// Deletes the character before the cursor.
    pub fn backspace(&mut self)
        ensures
            old(self)@.at > 0 ==> final(self)@.text == removed(old(self)@.text, old(self)@.at - 1)
                && final(self)@.at == old(self)@.at - 1,
            old(self)@.at == 0 ==> final(self)@ == old(self)@,
            final(self).hint() == old(self).hint(),
    {
        proof {
            use_type_invariant(&*self);
        }
        if self.at > 0 {
            let at = self.at - 1;
            let mut chars = self.take_chars();
            chars.remove(at);
            self.chars = chars;
            self.at = at;
            proof {
                assert(self.chars@ =~= removed(old(self)@.text, at as int));
            }
        }
    }

    /// Deletes the character after the cursor.
    pub fn delete_forward(&mut self)
        ensures
            old(self)@.at < old(self)@.text.len() ==> final(self)@.text == removed(
                old(self)@.text,
                old(self)@.at as int,
            ) && final(self)@.at == old(self)@.at,
            old(self)@.at >= old(self)@.text.len() ==> final(self)@ == old(self)@,
            final(self).hint() == old(self).hint(),
    {
        proof {
            use_type_invariant(&*self);
        }
        if self.at < self.chars.len() {
            let at = self.at;
            let mut chars = self.take_chars();
            chars.remove(at);
            self.chars = chars;
            self.at = at;
            proof {
                assert(self.chars@ =~= removed(old(self)@.text, at as int));
            }
        }
    }

    /// Handles a key: editing and cursor keys, and typed characters (the
    /// key's text when the platform gives one). Keys with control or the
    /// platform modifier belong to the surrounding view.
    pub fn key(&mut self, key: &str, key_char: Option<&str>, control: bool, platform: bool)
        ensures
            final(self)@ == field_key(old(self)@, key@, opt_text(key_char), control || platform),
            final(self).hint() == old(self).hint(),
    {
        proof {
            use_type_invariant(&*self);
        }
        if control || platform {
            return;
        }
        let k = chars_of(key);
        let is = |p: &str| -> (b: bool)
            ensures
                b == (k@ == p@),
            { crate::text::eq_str(&k, p) };
        if is("backspace") {
            self.backspace();
        } else if is("delete") {
            self.delete_forward();
        } else if is("left") {
            if self.at > 0 {
                self.at = self.at - 1;
            }
        } else if is("right") {
            if self.at < self.chars.len() {
                self.at = self.at + 1;
            }
        } else if is("home") {
            self.at = 0;
        } else if is("end") {
            self.at = self.chars.len();
        } else if is("space") {
            self.insert(' ');
        } else if k.len() == 1 {
            let typed = match key_char {
                Some(t) => chars_of(t),
                None => k,
            };
            if typed.len() > 0 {
                self.insert(typed[0]);
            }
        }
    }

    /// What the field shows: the placeholder while empty (flagged), else
    /// the value with a bar at the cursor while focused.
    pub fn display(&self, focused: bool) -> (d: (String, bool))
        ensures
            d.1 == (self@.text.len() == 0),
            d.1 ==> d.0@ == self.hint(),
            !d.1 ==> d.0@ == with_bar(self@.text, self@.at as int, focused),
    {
        proof {
            use_type_invariant(self);
        }
        if self.chars.len() == 0 {
            return (self.placeholder.clone(), true);
        }
        if !focused {
            return (string_from(&self.chars), false);
        }
        let mut s = string_of(&self.chars, 0, self.at);
        s.append("|");
        s.append(string_of(&self.chars, self.at, self.chars.len()).as_str());
        proof {
            assert(self.chars@.subrange(0, self.at as int) =~= self.chars@.take(self.at as int));
            assert(self.chars@.subrange(self.at as int, self.chars@.len() as int) =~= self.chars@.skip(
                self.at as int,
            ));
        }
        (s, false)
    }
}

/// The one-line field after a key.
pub open spec fn field_key(f: EditorView, key: Seq<char>, key_char: Option<Seq<char>>, modified: bool) -> EditorView {
    let s = f.text;
    let at = f.at;
    if modified {
        f
    } else if key == "backspace"@ {
        if at > 0 {
            EditorView { text: removed(s, at - 1), at: (at - 1) as nat }
        } else {
            f
        }
    } else if key == "delete"@ {
        if at < s.len() {
            EditorView { text: removed(s, at as int), at }
        } else {
            f
        }
    } else if key == "left"@ {
        if at > 0 {
            EditorView { text: s, at: (at - 1) as nat }
        } else {
            f
        }
    } else if key == "right"@ {
        if at < s.len() {
            EditorView { text: s, at: at + 1 }
        } else {
            f
        }
    } else if key == "home"@ {
        EditorView { text: s, at: 0 }
    } else if key == "end"@ {
        EditorView { text: s, at: s.len() }
    } else if key == "space"@ {
        EditorView { text: inserted(s, at as int, ' '), at: at + 1 }
    } else if key.len() == 1 {
        let typed = match key_char {
            Some(t) => t,
            None => key,
        };
        if typed.len() > 0 {
            EditorView { text: inserted(s, at as int, typed[0]), at: at + 1 }
        } else {
            f
        }
    } else {
        f
    }
}


// ---------------------------------------------------------------------
// Multi-line input
// ---------------------------------------------------------------------

/// Where the line holding position `at` begins: after the last newline
/// before it, else 0.
pub open spec fn line_begin(s: Seq<char>, at: int) -> int
    decreases at,
{
    if at <= 0 {
        0
    } else if s[at - 1] == '\n' {
        at
    } else {
        line_begin(s, at - 1)
    }
}

/// Where the line holding position `p` ends: at the next newline, else
/// at the end of the text.
pub open spec fn line_end(s: Seq<char>, p: int) -> int
    decreases s.len() - p,
{
    if p >= s.len() {
        s.len() as int
    } else if s[p] == '\n' {
        p
    } else {
        line_end(s, p + 1)
    }
}

/// The newlines before position `at`: the index of its line.
pub open spec fn newlines(s: Seq<char>, at: int) -> nat
    decreases at,
{
    if at <= 0 {
        0
    } else {
        newlines(s, at - 1) + if s[at - 1] == '\n' {
            1nat
        } else {
            0nat
        }
    }
}

proof fn lemma_line_begin(s: Seq<char>, at: int)
    requires
        0 <= at <= s.len(),
    ensures
        0 <= line_begin(s, at) <= at,
        line_begin(s, at) > 0 ==> s[line_begin(s, at) - 1] == '\n',
    decreases at,
{
    if at > 0 && s[at - 1] != '\n' {
        lemma_line_begin(s, at - 1);
    }
}

proof fn lemma_line_end(s: Seq<char>, p: int)
    requires
        0 <= p <= s.len(),
    ensures
        p <= line_end(s, p) <= s.len(),
        line_end(s, p) < s.len() ==> s[line_end(s, p)] == '\n',
    decreases s.len() - p,
{
    if p < s.len() && s[p] != '\n' {
        lemma_line_end(s, p + 1);
    }
}

/// `a` or `b`, whichever is smaller.
pub open spec fn min_of(a: int, b: int) -> int {
    if a < b {
        a
    } else {
        b
    }
}

/// The cursor one line up, in the same column or at that line's end.
pub open spec fn up_of(s: Seq<char>, at: int) -> int {
    let b = line_begin(s, at);
    if b == 0 {
        at
    } else {
        let pb = line_begin(s, b - 1);
        pb + min_of(at - b, (b - 1) - pb)
    }
}

/// The cursor one line down, in the same column or at that line's end.
pub open spec fn down_of(s: Seq<char>, at: int) -> int {
    let e = line_end(s, at);
    if e == s.len() {
        at
    } else {
        let nb = e + 1;
        nb + min_of(at - line_begin(s, at), line_end(s, nb) - nb)
    }
}

/// Newlines as typed: each `\r\n` of pasted text becomes `\n`.
pub open spec fn crlf_to_lf(s: Seq<char>) -> Seq<char>
    decreases s.len(),
{
    if s.len() == 0 {
        seq![]
    } else if s.len() >= 2 && s[0] == '\r' && s[1] == '\n' {
        seq!['\n'] + crlf_to_lf(s.skip(2))
    } else {
        seq![s[0]] + crlf_to_lf(s.drop_first())
    }
}

/// Rows the multi-line input shows at once.
pub const VISIBLE_LINES: usize = 12;

/// The first line shown: the window follows the cursor's line.
pub open spec fn scroll_of(cursor_line: nat) -> nat {
    if cursor_line >= VISIBLE_LINES {
        (cursor_line + 1 - VISIBLE_LINES) as nat
    } else {
        0
    }
}

/// A shown row: its line (the cursor's with the bar at the cursor while
/// focused); an empty line keeps a blank so it still has height.
pub open spec fn area_row(s: Seq<char>, at: int, focused: bool, i: int) -> Seq<char> {
    let t = if focused && i == newlines(s, at) {
        s.subrange(line_begin(s, at), at) + "|"@ + s.subrange(at, line_end(s, at))
    } else {
        split(s, '\n')[i]
    };
    if t.len() == 0 {
        " "@
    } else {
        t
    }
}

/// What a key did to the multi-line input.
#[derive(Clone, Copy, Debug, PartialEq, Eq, Structural)]
pub enum AreaKey {
    /// The input handled the key (it goes no further).
    Consumed,
    /// The key belongs to the surrounding card (confirm, cancel).
    Bubble,
    /// A paste chord: the caller inserts the clipboard's text.
    Paste,
}

/// Multi-line text input (enter inserts a newline; no wrapping).
pub struct TextArea {
    chars: Vec<char>,
    at: usize,
}

impl View for TextArea {
    type V = EditorView;

    closed spec fn view(&self) -> EditorView {
        EditorView { text: self.chars@, at: self.at as nat }
    }
}

/// The position before the first newline at or after `p`, else the end.
fn end_of(v: &Vec<char>, p: usize) -> (e: usize)
    requires
        p <= v.len(),
    ensures
        e == line_end(v@, p as int),
        p <= e <= v.len(),
{
    let mut i = p;
    while i < v.len() && v[i] != '\n'
        invariant
            p <= i <= v.len(),
            line_end(v@, p as int) == line_end(v@, i as int),
        decreases v.len() - i,
    {
        i += 1;
    }
    i
}

/// The start of the line holding `at`.
fn begin_of(v: &Vec<char>, at: usize) -> (b: usize)
    requires
        at <= v.len(),
    ensures
        b == line_begin(v@, at as int),
        b <= at,
{
    let mut i = at;
    while i > 0 && v[i - 1] != '\n'
        invariant
            i <= at <= v.len(),
            line_begin(v@, at as int) == line_begin(v@, i as int),
        decreases i,
    {
        i -= 1;
    }
    i
}

/// The newlines before `at`.
fn newlines_before(v: &Vec<char>, at: usize) -> (n: usize)
    requires
        at <= v.len(),
    ensures
        n == newlines(v@, at as int),
{
    let mut n: usize = 0;
    let mut i: usize = 0;
    while i < at
        invariant
            i <= at <= v.len(),
            n == newlines(v@, i as int),
            n <= i,
        decreases at - i,
    {
        if v[i] == '\n' {
            n += 1;
        }
        i += 1;
    }
    n
}

impl TextArea {
    #[verifier::type_invariant]
    spec fn cursor_in_text(&self) -> bool {
        self.at <= self.chars@.len()
    }

    /// An empty input.
    pub fn new() -> (a: Self)
        ensures
            a@.text.len() == 0,
            a@.at == 0,
    {
        TextArea { chars: Vec::new(), at: 0 }
    }

    /// The text.
    pub fn value(&self) -> (s: String)
        ensures
            s@ == self@.text,
    {
        string_from(&self.chars)
    }

    fn take_chars(&mut self) -> (v: Vec<char>)
        ensures
            v@ == old(self).chars@,
            final(self).chars@.len() == 0,
            final(self).at == 0,
    {
        self.at = 0;
        let mut v: Vec<char> = Vec::new();
        std::mem::swap(&mut v, &mut self.chars);
        v
    }

    /// Replaces the text. The cursor keeps its byte offset, pulled back to
    /// the text's end and then to the start of the character it falls in.
    pub fn set_value(&mut self, v: &str)
        ensures
            final(self)@.text == v@,
            final(self)@.at == chars_within(
                v@,
                byte_len(old(self)@.text.take(old(self)@.at as int)) as int,
            ),
    {
        proof {
            use_type_invariant(&*self);
        }
        let b = prefix_bytes(&self.chars, self.at);
        let chars = chars_of(v);
        let at = fitting(&chars, b);
        self.at = 0;
        self.chars = chars;
        self.at = at;
    }

    /// (line, column) of the cursor, in characters.
    pub fn line_col(&self) -> (lc: (usize, usize))
        ensures
            lc.0 == newlines(self@.text, self@.at as int),
            lc.1 == self@.at - line_begin(self@.text, self@.at as int),
    {
        proof {
            use_type_invariant(self);
        }
        let b = begin_of(&self.chars, self.at);
        (newlines_before(&self.chars, self.at), self.at - b)
    }

    /// Types a character at the cursor.
    pub fn insert(&mut self, ch: char)
        ensures
            final(self)@.text == inserted(old(self)@.text, old(self)@.at as int, ch),
            final(self)@.at == old(self)@.at + 1,
    {
        proof {
            use_type_invariant(&*self);
        }
        let at = self.at;
        let mut chars = self.take_chars();
        chars.insert(at, ch);
        let n = chars.len();
        assert(at < n);
        self.chars = chars;
        self.at = at + 1;
        proof {
            assert(self.chars@ =~= inserted(old(self)@.text, old(self)@.at as int, ch));
        }
    }

    /// Inserts pasted text at the cursor (as typed: `\r\n` becomes `\n`),
    /// leaving the cursor after it.
    pub fn paste(&mut self, text: &str)
        ensures
            final(self)@.text == old(self)@.text.take(old(self)@.at as int) + crlf_to_lf(text@)
                + old(self)@.text.skip(old(self)@.at as int),
            final(self)@.at == old(self)@.at + crlf_to_lf(text@).len(),
    {
        proof {
            use_type_invariant(&*self);
        }
        let t = chars_of(text);
        let mut norm: Vec<char> = Vec::new();
        let mut i: usize = 0;
        proof {
            assert(t@.skip(0) =~= t@);
        }
        while i < t.len()
            invariant
                i <= t.len(),
                norm@ + crlf_to_lf(t@.skip(i as int)) == crlf_to_lf(t@),
            decreases t.len() - i,
        {
            let ghost rest = t@.skip(i as int);
            if i + 1 < t.len() && t[i] == '\r' && t[i + 1] == '\n' {
                proof {
                    assert(rest.skip(2) =~= t@.skip(i + 2));
                    assert(rest[0] == '\r' && rest[1] == '\n');
                }
                norm.push('\n');
                i += 2;
            } else {
                proof {
                    assert(rest.drop_first() =~= t@.skip(i + 1));
                    assert(rest[0] == t@[i as int]);
                    if rest.len() >= 2 {
                        assert(rest[1] == t@[i + 1]);
                    }
                }
                norm.push(t[i]);
                i += 1;
            }
            proof {
                assert(norm@ + crlf_to_lf(t@.skip(i as int)) =~= crlf_to_lf(t@));
            }
        }
        proof {
            assert(t@.skip(i as int).len() == 0);
            assert(norm@ =~= crlf_to_lf(t@));
        }
        let at = self.at;
        let chars = self.take_chars();
        let mut out: Vec<char> = Vec::new();
        let mut k: usize = 0;
        while k < at
            invariant
                k <= at <= chars@.len(),
                out@ == chars@.take(k as int),
            decreases at - k,
        {
            out.push(chars[k]);
            k += 1;
            proof {
                assert(out@ =~= chars@.take(k as int));
            }
        }
        let mut j: usize = 0;
        while j < norm.len()
            invariant
                j <= norm@.len(),
                at <= chars@.len(),
                out@ == chars@.take(at as int) + norm@.take(j as int),
            decreases norm@.len() - j,
        {
            out.push(norm[j]);
            j += 1;
            proof {
                assert(out@ =~= chars@.take(at as int) + norm@.take(j as int));
            }
        }
        let cursor = out.len();
        let mut m: usize = at;
        while m < chars.len()
            invariant
                at <= m <= chars@.len(),
                cursor == at + norm@.len(),
                out@ == chars@.take(at as int) + norm@ + chars@.subrange(at as int, m as int),
            decreases chars@.len() - m,
        {
            out.push(chars[m]);
            m += 1;
            proof {
                assert(out@ =~= chars@.take(at as int) + norm@ + chars@.subrange(
                    at as int,
                    m as int,
                ));
            }
        }
        proof {
            assert(norm@.take(norm@.len() as int) =~= norm@);
            assert(chars@.subrange(at as int, chars@.len() as int) =~= chars@.skip(at as int));
        }
        self.chars = out;
        self.at = cursor;
    }

    /// Deletes the character before the cursor.
    pub fn backspace(&mut self)
        ensures
            old(self)@.at > 0 ==> final(self)@.text == removed(old(self)@.text, old(self)@.at - 1)
                && final(self)@.at == old(self)@.at - 1,
            old(self)@.at == 0 ==> final(self)@ == old(self)@,
    {
        proof {
            use_type_invariant(&*self);
        }
        if self.at > 0 {
            let at = self.at - 1;
            let mut chars = self.take_chars();
            chars.remove(at);
            self.chars = chars;
            self.at = at;
            proof {
                assert(self.chars@ =~= removed(old(self)@.text, at as int));
            }
        }
    }

    /// Deletes the character after the cursor.
    pub fn delete_forward(&mut self)
        ensures
            old(self)@.at < old(self)@.text.len() ==> final(self)@.text == removed(
                old(self)@.text,
                old(self)@.at as int,
            ) && final(self)@.at == old(self)@.at,
            old(self)@.at >= old(self)@.text.len() ==> final(self)@ == old(self)@,
    {
        proof {
            use_type_invariant(&*self);
        }
        if self.at < self.chars.len() {
            let at = self.at;
            let mut chars = self.take_chars();
            chars.remove(at);
            self.chars = chars;
            self.at = at;
            proof {
                assert(self.chars@ =~= removed(old(self)@.text, at as int));
            }
        }
    }

    /// Moves the cursor to `to` (a position of the text).
    fn move_to(&mut self, to: usize)
        requires
            to <= old(self)@.text.len(),
        ensures
            final(self)@.text == old(self)@.text,
            final(self)@.at == to,
    {
        self.at = to;
    }

    /// One character left.
    pub fn move_left(&mut self)
        ensures
            final(self)@.text == old(self)@.text,
            final(self)@.at == (if old(self)@.at > 0 {
                old(self)@.at - 1
            } else {
                0
            }),
    {
        proof {
            use_type_invariant(&*self);
        }
        if self.at > 0 {
            self.move_to(self.at - 1);
        }
    }

    /// One character right.
    pub fn move_right(&mut self)
        ensures
            final(self)@.text == old(self)@.text,
            final(self)@.at == (if old(self)@.at < old(self)@.text.len() {
                old(self)@.at + 1
            } else {
                old(self)@.at
            }),
    {
        proof {
            use_type_invariant(&*self);
        }
        if self.at < self.chars.len() {
            self.move_to(self.at + 1);
        }
    }

    /// One line up, keeping the column where the line is long enough
    /// (nothing on the first line).
    pub fn move_up(&mut self)
        ensures
            final(self)@.text == old(self)@.text,
            final(self)@.at == up_of(old(self)@.text, old(self)@.at as int),
    {
        proof {
            use_type_invariant(&*self);
        }
        let b = begin_of(&self.chars, self.at);
        if b == 0 {
            return;
        }
        proof {
            lemma_line_begin(self.chars@, self.at as int);
        }
        let pb = begin_of(&self.chars, b - 1);
        let col = self.at - b;
        let len = (b - 1) - pb;
        self.move_to(pb + if col < len {
            col
        } else {
            len
        });
    }

    /// One line down, keeping the column where the line is long enough
    /// (nothing on the last line).
    pub fn move_down(&mut self)
        ensures
            final(self)@.text == old(self)@.text,
            final(self)@.at == down_of(old(self)@.text, old(self)@.at as int),
    {
        proof {
            use_type_invariant(&*self);
        }
        let e = end_of(&self.chars, self.at);
        if e == self.chars.len() {
            return;
        }
        let nb = e + 1;
        let ne = end_of(&self.chars, nb);
        let col = self.at - begin_of(&self.chars, self.at);
        let len = ne - nb;
        self.move_to(nb + if col < len {
            col
        } else {
            len
        });
    }

    /// To the start of the cursor's line.
    pub fn move_home(&mut self)
        ensures
            final(self)@.text == old(self)@.text,
            final(self)@.at == line_begin(old(self)@.text, old(self)@.at as int),
    {
        proof {
            use_type_invariant(&*self);
        }
        let b = begin_of(&self.chars, self.at);
        self.move_to(b);
    }

    /// To the end of the cursor's line.
    pub fn move_end(&mut self)
        ensures
            final(self)@.text == old(self)@.text,
            final(self)@.at == line_end(old(self)@.text, old(self)@.at as int),
    {
        proof {
            use_type_invariant(&*self);
        }
        let e = end_of(&self.chars, self.at);
        self.move_to(e);
    }

    /// Handles a key. A paste chord (control or the platform modifier with
    /// `v`, without alt) asks the caller for the clipboard; other modified
    /// keys, and keys the input has no use for, bubble to the surrounding
    /// card; the rest edit the text (enter and tab insert themselves).
    pub fn key(&mut self, key: &str, key_char: Option<&str>, control: bool, platform: bool, alt: bool) -> (r:
        AreaKey)
        ensures
            (platform || control) && !alt && key@ == "v"@ ==> r == AreaKey::Paste && final(self)@
                == old(self)@,
            !((platform || control) && !alt && key@ == "v"@) && (control || platform || alt)
                ==> r == AreaKey::Bubble && final(self)@ == old(self)@,
            !(control || platform || alt) ==> (r == AreaKey::Consumed <==> area_consumes(key@))
                && (r == AreaKey::Bubble <==> !area_consumes(key@)) && final(self)@ == area_key(
                old(self)@,
                key@,
                opt_text(key_char),
            ),
    {
        proof {
            use_type_invariant(&*self);
        }
        let k = chars_of(key);
        let is = |p: &str| -> (b: bool)
            ensures
                b == (k@ == p@),
            { crate::text::eq_str(&k, p) };
        if (platform || control) && !alt && is("v") {
            return AreaKey::Paste;
        }
        if control || platform || alt {
            return AreaKey::Bubble;
        }
        if is("enter") {
            self.insert('\n');
        } else if is("backspace") {
            self.backspace();
        } else if is("delete") {
            self.delete_forward();
        } else if is("left") {
            self.move_left();
        } else if is("right") {
            self.move_right();
        } else if is("up") {
            self.move_up();
        } else if is("down") {
            self.move_down();
        } else if is("home") {
            self.move_home();
        } else if is("end") {
            self.move_end();
        } else if is("tab") {
            self.insert('\t');
        } else if is("space") {
            self.insert(' ');
        } else if k.len() == 1 {
            let typed = match key_char {
                Some(t) => chars_of(t),
                None => k,
            };
            if typed.len() > 0 {
                self.insert(typed[0]);
            }
        } else {
            return AreaKey::Bubble;
        }
        AreaKey::Consumed
    }

    /// The rows shown: a window of the lines that follows the cursor's
    /// line, the cursor drawn as a bar while focused.
    pub fn visible_rows(&self, focused: bool) -> (rows: Vec<String>)
        ensures
            ({
                let s = self@.text;
                let n = split(s, '\n').len();
                let first = scroll_of(newlines(s, self@.at as int));
                let count = if first >= n {
                    0
                } else if n - first < VISIBLE_LINES {
                    n - first
                } else {
                    VISIBLE_LINES as int
                };
                &&& rows@.len() == count
                &&& forall|j: int|
                    0 <= j < count ==> (#[trigger] rows@[j])@ == area_row(
                        s,
                        self@.at as int,
                        focused,
                        first + j,
                    )
            }),
    {
        proof {
            use_type_invariant(self);
        }
        let lines = split_chars(&self.chars, '\n');
        let cursor_line = newlines_before(&self.chars, self.at);
        let first = if cursor_line >= VISIBLE_LINES {
            cursor_line - (VISIBLE_LINES - 1)
        } else {
            0
        };
        let count = if first >= lines.len() {
            0
        } else if lines.len() - first < VISIBLE_LINES {
            lines.len() - first
        } else {
            VISIBLE_LINES
        };
        let b = begin_of(&self.chars, self.at);
        let e = end_of(&self.chars, self.at);
        let mut rows: Vec<String> = Vec::new();
        let mut j: usize = 0;
        let nlines: usize = lines.len();
        while j < count
            invariant
                j <= count,
                nlines == lines@.len(),
                count > 0 ==> first + count <= lines@.len(),
                crate::text::views(lines@) == split(self.chars@, '\n'),
                cursor_line == newlines(self.chars@, self.at as int),
                b == line_begin(self.chars@, self.at as int),
                e == line_end(self.chars@, self.at as int),
                b <= self.at <= e <= self.chars@.len(),
                rows@.len() == j,
                forall|i: int|
                    0 <= i < j ==> (#[trigger] rows@[i])@ == area_row(
                        self.chars@,
                        self.at as int,
                        focused,
                        first + i,
                    ),
            decreases count - j,
        {
            let i = first + j;
            let mut t = if focused && i == cursor_line {
                let mut t = string_of(&self.chars, b, self.at);
                t.append("|");
                t.append(string_of(&self.chars, self.at, e).as_str());
                t
            } else {
                proof {
                    assert(crate::text::views(lines@)[i as int] == lines@[i as int]@);
                }
                string_from(&lines[i])
            };
            if t.as_str().unicode_len() == 0 {
                t = String::from_str(" ");
            }
            rows.push(t);
            j += 1;
        }
        rows
    }
}

/// The keys the multi-line input handles itself.
pub open spec fn area_consumes(key: Seq<char>) -> bool {
    key == "enter"@ || key == "backspace"@ || key == "delete"@ || key == "left"@ || key == "right"@
        || key == "up"@ || key == "down"@ || key == "home"@ || key == "end"@ || key == "tab"@ || key
        == "space"@ || key.len() == 1
}

/// The multi-line input after an unmodified key.
pub open spec fn area_key(a: EditorView, key: Seq<char>, key_char: Option<Seq<char>>) -> EditorView {
    let s = a.text;
    let at = a.at as int;
    if key == "enter"@ {
        EditorView { text: inserted(s, at, '\n'), at: a.at + 1 }
    } else if key == "backspace"@ {
        if at > 0 {
            EditorView { text: removed(s, at - 1), at: (at - 1) as nat }
        } else {
            a
        }
    } else if key == "delete"@ {
        if at < s.len() {
            EditorView { text: removed(s, at), at: a.at }
        } else {
            a
        }
    } else if key == "left"@ {
        EditorView {
            text: s,
            at: if at > 0 {
                (at - 1) as nat
            } else {
                0
            },
        }
    } else if key == "right"@ {
        EditorView {
            text: s,
            at: if at < s.len() {
                (at + 1) as nat
            } else {
                a.at
            },
        }
    } else if key == "up"@ {
        EditorView { text: s, at: up_of(s, at) as nat }
    } else if key == "down"@ {
        EditorView { text: s, at: down_of(s, at) as nat }
    } else if key == "home"@ {
        EditorView { text: s, at: line_begin(s, at) as nat }
    } else if key == "end"@ {
        EditorView { text: s, at: line_end(s, at) as nat }
    } else if key == "tab"@ {
        EditorView { text: inserted(s, at, '\t'), at: a.at + 1 }
    } else if key == "space"@ {
        EditorView { text: inserted(s, at, ' '), at: a.at + 1 }
    } else if key.len() == 1 {
        let typed = match key_char {
            Some(t) => t,
            None => key,
        };
        if typed.len() > 0 {
            EditorView { text: inserted(s, at, typed[0]), at: a.at + 1 }
        } else {
            a
        }
    } else {
        a
    }
}

/// Typing a character and then pressing backspace leaves the one-line
/// field exactly as it was.
pub proof fn field_backspace_undoes_typing(f: EditorView, key: Seq<char>)
    requires
        f.at <= f.text.len(),
        key.len() == 1,
    ensures
        field_key(field_key(f, key, None, false), "backspace"@, None, false) == f,
{
    reveal_strlit("backspace");
    reveal_strlit("delete");
    reveal_strlit("left");
    reveal_strlit("right");
    reveal_strlit("home");
    reveal_strlit("end");
    reveal_strlit("space");
    let typed = field_key(f, key, None, false);
    assert(typed.text == inserted(f.text, f.at as int, key[0]));
    assert(removed(inserted(f.text, f.at as int, key[0]), f.at as int) =~= f.text);
}

/// Typing a character and then pressing backspace leaves the multi-line
/// input exactly as it was.
pub proof fn area_backspace_undoes_typing(a: EditorView, key: Seq<char>)
    requires
        a.at <= a.text.len(),
        key.len() == 1,
    ensures
        area_key(area_key(a, key, None), "backspace"@, None) == a,
{
    reveal_strlit("enter");
    reveal_strlit("backspace");
    reveal_strlit("delete");
    reveal_strlit("left");
    reveal_strlit("right");
    reveal_strlit("up");
    reveal_strlit("down");
    reveal_strlit("home");
    reveal_strlit("end");
    reveal_strlit("tab");
    reveal_strlit("space");
    let typed = area_key(a, key, None);
    assert(typed.text == inserted(a.text, a.at as int, key[0]));
    assert(typed.at == a.at + 1);
    assert(removed(inserted(a.text, a.at as int, key[0]), a.at as int) =~= a.text);
    assert("backspace"@.len() == 9);
    assert("enter"@.len() == 5);
    assert("backspace"@ != "enter"@);
    let back = area_key(typed, "backspace"@, None);
    assert(back.text == a.text);
    assert(back.at == a.at);
}

} // verus!
