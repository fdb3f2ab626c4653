//! A one-line text field with a cursor held as a byte offset.
use vstd::prelude::*;
use vstd::utf8;

use crate::text::to_chars;

verus! {

/// A key that edits the field or moves the cursor.
#[derive(Debug, Clone, Copy, PartialEq, Eq, Structural)]
pub enum EditKey {
    Backspace,
    Delete,
    Left,
    Right,
    Home,
    End,
    Char(char),
}

// ---------------------------------------------------------------------------
// Model
// ---------------------------------------------------------------------------

/// How many bytes the text takes.
pub open spec fn byte_len(s: Seq<char>) -> int {
    utf8::encode_utf8(s).len() as int
}

/// Whether the byte offset falls between two characters of the text.
pub open spec fn at_boundary(s: Seq<char>, offset: int) -> bool {
    utf8::is_char_boundary(utf8::encode_utf8(s), offset)
}

/// The characters before the byte offset.
pub open spec fn before(s: Seq<char>, offset: int) -> Seq<char> {
    utf8::decode_utf8(utf8::encode_utf8(s).subrange(0, offset))
}

/// The characters from the byte offset on.
pub open spec fn after(s: Seq<char>, offset: int) -> Seq<char> {
    utf8::decode_utf8(utf8::encode_utf8(s).subrange(offset, byte_len(s)))
}

/// Whether the key can be applied: what it inserts or removes lies at a
/// character boundary.
pub open spec fn can_edit(s: Seq<char>, cursor: int, key: EditKey) -> bool {
    match key {
        EditKey::Backspace => cursor > 0 ==> cursor - 1 < byte_len(s) && at_boundary(
            s,
            cursor - 1,
        ),
        EditKey::Delete => cursor < byte_len(s) ==> at_boundary(s, cursor),
        EditKey::Char(_) => at_boundary(s, cursor),
        _ => true,
    }
}

/// The text and the cursor after the key.
pub open spec fn edited(s: Seq<char>, cursor: int, key: EditKey) -> (Seq<char>, int) {
    match key {
        EditKey::Backspace => if cursor > 0 {
            (before(s, cursor - 1) + after(s, cursor - 1).drop_first(), cursor - 1)
        } else {
            (s, cursor)
        },
        EditKey::Delete => if cursor < byte_len(s) {
            (before(s, cursor) + after(s, cursor).drop_first(), cursor)
        } else {
            (s, cursor)
        },
        EditKey::Left => (s, if cursor > 0 {
            cursor - 1
        } else {
            cursor
        }),
        EditKey::Right => (s, if cursor < byte_len(s) {
            cursor + 1
        } else {
            cursor
        }),
        EditKey::Home => (s, 0),
        EditKey::End => (s, byte_len(s)),
        EditKey::Char(c) => (before(s, cursor).push(c) + after(s, cursor), cursor + 1),
    }
}

// ---------------------------------------------------------------------------
// Encoding facts
// ---------------------------------------------------------------------------

/// The encoding of a text is the encodings of its parts in order.
pub proof fn encode_add(a: Seq<char>, b: Seq<char>)
    ensures
        utf8::encode_utf8(a + b) == utf8::encode_utf8(a) + utf8::encode_utf8(b),
    decreases a.len(),
{
    if a.len() == 0 {
        assert(a + b =~= b);
        assert(utf8::encode_utf8(a) + utf8::encode_utf8(b) =~= utf8::encode_utf8(b));
    } else {
        encode_add(a.drop_first(), b);
        assert((a + b).drop_first() =~= a.drop_first() + b);
        assert(utf8::encode_utf8(a + b) =~= utf8::encode_utf8(a) + utf8::encode_utf8(b));
    }
}

/// A character takes at least one byte.
proof fn encode_one(c: char)
    ensures
        utf8::encode_utf8(seq![c]).len() >= 1,
{
    reveal_with_fuel(utf8::encode_utf8, 2);
}

/// The end of the first `k` characters is a boundary that separates them from
/// the rest.
pub proof fn boundary_after_chars(s: Seq<char>, k: int)
    requires
        0 <= k <= s.len(),
    ensures
        at_boundary(s, byte_len(s.take(k))),
        before(s, byte_len(s.take(k))) == s.take(k),
        after(s, byte_len(s.take(k))) == s.skip(k),
{
    let front = utf8::encode_utf8(s.take(k));
    let back = utf8::encode_utf8(s.skip(k));
    assert(s.take(k) + s.skip(k) =~= s);
    encode_add(s.take(k), s.skip(k));
    assert(utf8::encode_utf8(s).subrange(0, front.len() as int) =~= front);
    assert(utf8::encode_utf8(s).subrange(front.len() as int, byte_len(s)) =~= back);
    utf8::encode_utf8_decode_utf8(s.take(k));
    utf8::encode_utf8_decode_utf8(s.skip(k));
    boundary_of_chars(s, k);
}

proof fn boundary_of_chars(s: Seq<char>, k: int)
    requires
        0 <= k <= s.len(),
    ensures
        at_boundary(s, byte_len(s.take(k))),
    decreases k,
{
    utf8::encode_utf8_valid_utf8(s);
    if k == 0 {
        assert(s.take(0) =~= Seq::empty());
    } else {
        let rest = s.drop_first();
        utf8::encode_utf8_first_scalar(s);
        boundary_of_chars(rest, k - 1);
        assert(s.take(k).drop_first() =~= rest.take(k - 1));
        encode_one(s[0]);
        assert(utf8::pop_first_scalar(utf8::encode_utf8(s)) =~= utf8::encode_utf8(rest));
        assert(s =~= s.take(k) + s.skip(k));
        encode_add(s.take(k), s.skip(k));
    }
}

/// Splitting at a boundary gives the two parts back.
proof fn boundary_parts(s: Seq<char>, offset: int)
    requires
        at_boundary(s, offset),
        0 <= offset <= byte_len(s),
    ensures
        before(s, offset) + after(s, offset) == s,
        byte_len(before(s, offset)) == offset,
        offset < byte_len(s) ==> after(s, offset).len() > 0,
{
    utf8::encode_utf8_valid_utf8(s);
    utf8::decode_utf8_split(utf8::encode_utf8(s), offset);
    utf8::encode_utf8_decode_utf8(s);
    utf8::valid_utf8_split(utf8::encode_utf8(s), offset);
    utf8::decode_utf8_encode_utf8(utf8::encode_utf8(s).subrange(0, offset));
    utf8::decode_utf8_encode_utf8(utf8::encode_utf8(s).subrange(offset, byte_len(s)));
}

// ---------------------------------------------------------------------------
// Editing
// ---------------------------------------------------------------------------

/// How many bytes the text takes.
pub fn text_len(s: &str) -> (n: usize)
    ensures
        n as int == byte_len(s@),
{
    s.as_bytes().len()
}

/// The text with `c` inserted at the byte offset.
pub fn insert_at(s: &str, offset: usize, c: char) -> (r: String)
    requires
        at_boundary(s@, offset as int),
    ensures
        r@ == before(s@, offset as int).push(c) + after(s@, offset as int),
{
    let (front, back) = s.split_at(offset);
    proof {
        utf8::encode_utf8_decode_utf8(front@);
        utf8::encode_utf8_decode_utf8(back@);
    }
    let mut r: String = front.to_owned();
    r.push(c);
    r.append(back);
    r
}

/// The text without the character at the byte offset.
pub fn remove_at(s: &str, offset: usize) -> (r: String)
    requires
        at_boundary(s@, offset as int),
        offset < byte_len(s@),
    ensures
        r@ == before(s@, offset as int) + after(s@, offset as int).drop_first(),
{
    let (front, back) = s.split_at(offset);
    proof {
        utf8::encode_utf8_decode_utf8(front@);
        utf8::encode_utf8_decode_utf8(back@);
        boundary_parts(s@, offset as int);
    }
    let rest = to_chars(back);
    let mut r: String = front.to_owned();
    let tail = crate::text::string_of_range(&rest, 1, rest.len());
    assert(rest@.subrange(1, rest@.len() as int) =~= back@.drop_first());
    r.append(tail.as_str());
    r
}

/// Whether the key can be applied.
pub fn accepts(content: &str, cursor: usize, key: EditKey) -> (r: bool)
    ensures
        r == can_edit(content@, cursor as int, key),
{
    match key {
        EditKey::Backspace => cursor == 0 || (cursor - 1 < text_len(content)
            && content.is_char_boundary(cursor - 1)),
        EditKey::Delete => cursor >= text_len(content) || content.is_char_boundary(cursor),
        EditKey::Char(_) => content.is_char_boundary(cursor),
        _ => true,
    }
}

/// Applies the key to the text and the cursor.
pub fn edit(content: &mut String, cursor: &mut usize, key: EditKey)
    requires
        can_edit(old(content)@, *old(cursor) as int, key),
    ensures
        (final(content)@, *final(cursor) as int) == edited(
            old(content)@,
            *old(cursor) as int,
            key,
        ),
{
    let at: usize = *cursor;
    match key {
        EditKey::Backspace => {
            if at > 0 {
                let shorter = remove_at(content.as_str(), at - 1);
                *content = shorter;
                *cursor = at - 1;
            }
        },
        EditKey::Delete => {
            if at < text_len(content.as_str()) {
                let shorter = remove_at(content.as_str(), at);
                *content = shorter;
            }
        },
        EditKey::Left => {
            if at > 0 {
                *cursor = at - 1;
            }
        },
        EditKey::Right => {
            if at < text_len(content.as_str()) {
                *cursor = at + 1;
            }
        },
        EditKey::Home => {
            *cursor = 0;
        },
        EditKey::End => {
            *cursor = text_len(content.as_str());
        },
        EditKey::Char(c) => {
            let ghost s = content@;
            let longer = insert_at(content.as_str(), at, c);
            let n: usize = text_len(longer.as_str());
            assert(at < n) by {
                at_boundary_bound(s, at as int);
                boundary_parts(s, at as int);
                let x = before(s, at as int);
                let y = after(s, at as int);
                assert(x.push(c) + y =~= x + (seq![c] + y));
                encode_add(x, seq![c] + y);
                encode_add(seq![c], y);
                encode_one(c);
            }
            *content = longer;
            *cursor = at + 1;
        },
    }
}

/// A boundary lies within the text.
proof fn at_boundary_bound(s: Seq<char>, offset: int)
    requires
        at_boundary(s, offset),
    ensures
        0 <= offset <= byte_len(s),
{
    utf8::encode_utf8_valid_utf8(s);
}

// ---------------------------------------------------------------------------
// Laws
// ---------------------------------------------------------------------------

/// In ASCII text byte offsets count characters, and every offset up to the end
/// is a boundary.
pub proof fn ascii_offsets(s: Seq<char>, offset: int)
    requires
        utf8::is_ascii_chars(s),
        0 <= offset <= s.len(),
    ensures
        byte_len(s) == s.len(),
        at_boundary(s, offset),
        before(s, offset) == s.take(offset),
        after(s, offset) == s.skip(offset),
{
    utf8::is_ascii_chars_encode_utf8(s);
    assert(utf8::is_ascii_chars(s.take(offset)));
    utf8::is_ascii_chars_encode_utf8(s.take(offset));
    boundary_after_chars(s, offset);
}

/// While only ASCII characters are typed into an ASCII field whose cursor lies
/// within it, every key can be applied and the field stays so.
pub proof fn ascii_editing_stays_valid(s: Seq<char>, cursor: int, key: EditKey)
    requires
        utf8::is_ascii_chars(s),
        0 <= cursor <= s.len(),
        key matches EditKey::Char(c) ==> utf8::is_ascii_chars(seq![c]),
    ensures
        can_edit(s, cursor, key),
        utf8::is_ascii_chars(edited(s, cursor, key).0),
        0 <= edited(s, cursor, key).1 <= edited(s, cursor, key).0.len(),
{
    ascii_offsets(s, cursor);
    if cursor > 0 {
        ascii_offsets(s, cursor - 1);
    }
    if let EditKey::Char(c) = key {
        assert(c == seq![c][0]);
    }
}

/// A backspace undoes the typing of an ASCII character.
pub proof fn backspace_undoes_typing(s: Seq<char>, cursor: int, c: char)
    requires
        utf8::is_ascii_chars(s),
        utf8::is_ascii_chars(seq![c]),
        0 <= cursor <= s.len(),
    ensures
        ({
            let (s1, cursor1) = edited(s, cursor, EditKey::Char(c));
            can_edit(s1, cursor1, EditKey::Backspace) && edited(s1, cursor1, EditKey::Backspace)
                == (s, cursor)
        }),
{
    ascii_offsets(s, cursor);
    assert(c == seq![c][0]);
    let (s1, cursor1) = edited(s, cursor, EditKey::Char(c));
    ascii_editing_stays_valid(s, cursor, EditKey::Char(c));
    ascii_offsets(s1, cursor1 - 1);
    assert(s1.take(cursor) + s1.skip(cursor).drop_first() =~= s);
}

/// Keys at a place between two characters do what they say, whatever the
/// characters are: a character is inserted there and the cursor goes one byte
/// on, Delete takes the character behind the cursor, if there is one.
pub proof fn keys_edit_at_the_cursor(s: Seq<char>, k: int, c: char)
    requires
        0 <= k <= s.len(),
    ensures
        ({
            let cursor = byte_len(s.take(k));
            &&& can_edit(s, cursor, EditKey::Char(c))
            &&& can_edit(s, cursor, EditKey::Delete)
            &&& edited(s, cursor, EditKey::Char(c)) == (s.insert(k, c), cursor + 1)
            &&& k < s.len() ==> edited(s, cursor, EditKey::Delete) == (s.remove(k), cursor)
            &&& k == s.len() ==> edited(s, cursor, EditKey::Delete) == (s, cursor)
        }),
{
    boundary_after_chars(s, k);
    assert(s.take(k).push(c) + s.skip(k) =~= s.insert(k, c));
    assert(s.take(k) + s.skip(k) =~= s);
    encode_add(s.take(k), s.skip(k));
    if k < s.len() {
        assert(s.skip(k) =~= seq![s[k]] + s.skip(k + 1));
        encode_add(seq![s[k]], s.skip(k + 1));
        encode_one(s[k]);
        assert(s.take(k) + s.skip(k).drop_first() =~= s.remove(k));
    } else {
        assert(s.take(k) =~= s);
    }
}

/// Backspace takes the character that begins one byte before the cursor, and
/// the cursor goes there; at the start it does nothing.
pub proof fn backspace_takes_the_character_before(s: Seq<char>, k: int)
    requires
        0 <= k < s.len(),
    ensures
        ({
            let cursor = byte_len(s.take(k)) + 1;
            &&& can_edit(s, cursor, EditKey::Backspace)
            &&& edited(s, cursor, EditKey::Backspace) == (s.remove(k), cursor - 1)
        }),
        edited(s, 0, EditKey::Backspace) == (s, 0int),
{
    keys_edit_at_the_cursor(s, k, s[k]);
    boundary_after_chars(s, k);
    assert(s.take(k) + s.skip(k).drop_first() =~= s.remove(k));
    assert(s.take(k) + s.skip(k) =~= s);
    encode_add(s.take(k), s.skip(k));
    assert(s.skip(k) =~= seq![s[k]] + s.skip(k + 1));
    encode_add(seq![s[k]], s.skip(k + 1));
    encode_one(s[k]);
}

/// Keys that move the cursor leave the text alone: Left and Right move it by one
/// byte within the text, Home goes to the start and End behind the last
/// character.
pub proof fn moving_keys_move_the_cursor(s: Seq<char>, cursor: int)
    requires
        0 <= cursor <= byte_len(s),
    ensures
        forall|c: int| can_edit(s, c, EditKey::Left) && can_edit(s, c, EditKey::Right),
        edited(s, cursor, EditKey::Left).0 == s,
        edited(s, cursor, EditKey::Right).0 == s,
        cursor > 0 ==> edited(s, cursor, EditKey::Left).1 == cursor - 1,
        cursor == 0 ==> edited(s, cursor, EditKey::Left).1 == 0,
        cursor < byte_len(s) ==> edited(s, cursor, EditKey::Right).1 == cursor + 1,
        cursor == byte_len(s) ==> edited(s, cursor, EditKey::Right).1 == cursor,
        edited(s, cursor, EditKey::Home) == (s, 0int),
        edited(s, cursor, EditKey::End) == (s, byte_len(s.take(s.len() as int))),
{
    assert(s.take(s.len() as int) =~= s);
}

} // verus!
