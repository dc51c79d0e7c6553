//! Text rules shared by every descriptor: byte lengths, character classes, order and name lists.
use vstd::prelude::*;
use vstd::string::*;
use vstd::utf8::*;

verus! {

/// The number of bytes of a text in UTF-8.
pub open spec fn byte_len(text: Seq<char>) -> nat {
    encode_utf8(text).len()
}

/// A control code: U+0000 to U+001F and U+007F to U+009F.
pub open spec fn is_control(c: char) -> bool {
    c as u32 <= 0x1f || 0x7f <= c as u32 <= 0x9f
}

/// A character with the Unicode property `White_Space`.
pub open spec fn is_space(c: char) -> bool {
    let n = c as u32;
    ||| 0x09 <= n <= 0x0d
    ||| n == 0x20
    ||| n == 0x85
    ||| n == 0xa0
    ||| n == 0x1680
    ||| 0x2000 <= n <= 0x200a
    ||| n == 0x2028
    ||| n == 0x2029
    ||| n == 0x202f
    ||| n == 0x205f
    ||| n == 0x3000
}

/// A character that an identifier may hold: an ASCII letter or digit, `-`, `_` or `.`.
pub open spec fn is_identifier_char(c: char) -> bool {
    let n = c as u32;
    ||| 0x30 <= n <= 0x39
    ||| 0x41 <= n <= 0x5a
    ||| 0x61 <= n <= 0x7a
    ||| n == 0x2d
    ||| n == 0x5f
    ||| n == 0x2e
}

/// Some character of the text is a control code.
pub open spec fn has_control(text: Seq<char>) -> bool {
    exists|i: int| 0 <= i < text.len() && is_control(#[trigger] text[i])
}

/// Every character of the text is white space.
pub open spec fn is_blank(text: Seq<char>) -> bool {
    forall|i: int| 0 <= i < text.len() ==> is_space(#[trigger] text[i])
}

/// Neither end of the text is white space.
pub open spec fn is_trimmed(text: Seq<char>) -> bool {
    text.len() > 0 ==> !is_space(text[0]) && !is_space(text[text.len() - 1])
}

/// Every character of the text may stand in an identifier.
pub open spec fn is_identifier(text: Seq<char>) -> bool {
    forall|i: int| 0 <= i < text.len() ==> is_identifier_char(#[trigger] text[i])
}

/// The length of a text in bytes.
pub fn length_in_bytes(text: &str) -> (n: usize)
    ensures
        n == byte_len(text@),
{
    text.as_bytes().len()
}

/// Whether a character is a control code.
pub fn control(c: char) -> (r: bool)
    ensures
        r == is_control(c),
{
    let n: u32 = c as u32;
    n <= 0x1f || (0x7f <= n && n <= 0x9f)
}

/// Whether a character is white space.
pub fn space(c: char) -> (r: bool)
    ensures
        r == is_space(c),
{
    let n: u32 = c as u32;
    (0x09 <= n && n <= 0x0d) || n == 0x20 || n == 0x85 || n == 0xa0 || n == 0x1680 || (0x2000 <= n
        && n <= 0x200a) || n == 0x2028 || n == 0x2029 || n == 0x202f || n == 0x205f || n == 0x3000
}

/// Whether a text holds a control code.
pub fn contains_control(text: &str) -> (r: bool)
    ensures
        r == has_control(text@),
{
    for c in it: text.chars()
        invariant
            it.seq() == text@,
            forall|i: int| 0 <= i < it.index() ==> !is_control(#[trigger] text@[i]),
    {
        if control(c) {
            assert(is_control(text@[it.index()]));
            return true;
        }
    }
    false
}

/// Whether two texts are equal.
pub fn same(left: &str, right: &str) -> (r: bool)
    ensures
        r == (left@ == right@),
{
    let a = left.as_bytes();
    let b = right.as_bytes();
    if a.len() != b.len() {
        return false;
    }
    for i in 0..a.len()
        invariant
            a@ == encode_utf8(left@),
            b@ == encode_utf8(right@),
            a@.len() == b@.len(),
            forall|j: int| 0 <= j < i ==> a@[j] == b@[j],
    {
        if a[i] != b[i] {
            return false;
        }
    }
    assert(a@ =~= b@);
    proof {
        encode_utf8_decode_utf8(left@);
        encode_utf8_decode_utf8(right@);
    }
    true
}


/// Whether a text consists of white space alone.
pub fn blank(text: &str) -> (r: bool)
    ensures
        r == is_blank(text@),
{
    for c in it: text.chars()
        invariant
            it.seq() == text@,
            forall|i: int| 0 <= i < it.index() ==> is_space(#[trigger] text@[i]),
    {
        if !space(c) {
            assert(!is_space(text@[it.index()]));
            return false;
        }
    }
    true
}

/// Whether neither end of a text is white space.
pub fn trimmed(text: &str) -> (r: bool)
    ensures
        r == is_trimmed(text@),
{
    let mut first: bool = true;
    let mut starts: bool = false;
    let mut ends: bool = false;
    for c in it: text.chars()
        invariant
            it.seq() == text@,
            first == (it.index() == 0),
            it.index() > 0 ==> starts == is_space(text@[0]) && ends == is_space(
                text@[it.index() - 1],
            ),
            it.index() == 0 ==> !starts && !ends,
    {
        ends = space(c);
        if first {
            starts = ends;
            first = false;
        }
    }
    !starts && !ends
}

/// Whether every character of a text may stand in an identifier.
pub fn identifier(text: &str) -> (r: bool)
    ensures
        r == is_identifier(text@),
{
    for c in it: text.chars()
        invariant
            it.seq() == text@,
            forall|i: int| 0 <= i < it.index() ==> is_identifier_char(#[trigger] text@[i]),
    {
        let n: u32 = c as u32;
        if !((0x30 <= n && n <= 0x39) || (0x41 <= n && n <= 0x5a) || (0x61 <= n && n <= 0x7a) || n
            == 0x2d || n == 0x5f || n == 0x2e) {
            assert(!is_identifier_char(text@[it.index()]));
            return false;
        }
    }
    true
}

/// A short token: an identifier of one to `maximum` bytes that is neither `.` nor `..`.
pub open spec fn is_token(text: Seq<char>, maximum: nat) -> bool {
    &&& text.len() > 0
    &&& byte_len(text) <= maximum
    &&& text != "."@
    &&& text != ".."@
    &&& is_identifier(text)
}

/// Whether a text is a short token.
pub fn token(text: &str, maximum: usize) -> (r: bool)
    ensures
        r == is_token(text@, maximum as nat),
{
    !text.is_empty() && length_in_bytes(text) <= maximum && !same(text, ".") && !same(text, "..")
        && identifier(text)
}

/// Bounded text: not blank, at most `maximum` bytes, no control code.
pub open spec fn is_plain_text(text: Seq<char>, maximum: nat) -> bool {
    !is_blank(text) && byte_len(text) <= maximum && !has_control(text)
}

/// Whether a text is bounded, not blank and free of control codes.
pub fn plain_text(text: &str, maximum: usize) -> (r: bool)
    ensures
        r == is_plain_text(text@, maximum as nat),
{
    !blank(text) && length_in_bytes(text) <= maximum && !contains_control(text)
}

/// The text of an optional value.
pub open spec fn text_of(value: Option<String>) -> Option<Seq<char>> {
    match value {
        Some(text) => Some(text@),
        None => None,
    }
}

/// Whether two optional texts are equal.
pub fn same_optional(left: &Option<String>, right: &Option<String>) -> (r: bool)
    ensures
        r == (text_of(*left) == text_of(*right)),
{
    match (left, right) {
        (Some(a), Some(b)) => same(a.as_str(), b.as_str()),
        (None, None) => true,
        _ => false,
    }
}

/// An optional text, where there is one, is bounded, not blank and free of control codes.
pub open spec fn is_optional_plain_text(value: Option<String>, maximum: nat) -> bool {
    match value {
        Some(text) => is_plain_text(text@, maximum),
        None => true,
    }
}

/// Whether an optional text, where there is one, is bounded, not blank and free of control codes.
pub fn optional_plain_text(value: &Option<String>, maximum: usize) -> (r: bool)
    ensures
        r == is_optional_plain_text(*value, maximum as nat),
{
    match value {
        Some(text) => plain_text(text.as_str(), maximum),
        None => true,
    }
}

/// The texts of a list of names.
pub open spec fn texts(names: Seq<String>) -> Seq<Seq<char>> {
    names.map_values(|name: String| name@)
}

/// A copy of a list of names.
pub fn copy_texts(names: &Vec<String>) -> (copy: Vec<String>)
    ensures
        copy@ == names@,
{
    let mut copy: Vec<String> = Vec::new();
    for i in 0..names.len()
        invariant
            copy@ == names@.take(i as int),
    {
        copy.push(names[i].clone());
        assert(copy@ =~= names@.take(i + 1));
    }
    assert(names@.take(names@.len() as int) =~= names@);
    copy
}

/// Whether a list of names holds a text.
pub fn holds(names: &Vec<String>, text: &str) -> (r: bool)
    ensures
        r == texts(names@).contains(text@),
{
    for i in 0..names.len()
        invariant
            forall|j: int| 0 <= j < i ==> (#[trigger] names@[j])@ != text@,
    {
        if same(names[i].as_str(), text) {
            assert(texts(names@)[i as int] == text@);
            return true;
        }
    }
    assert forall|j: int| 0 <= j < texts(names@).len() implies texts(names@)[j] != text@ by {
        assert(names@[j]@ != text@);
    }
    false
}

/// Whether no text occurs twice in a list of names.
pub fn all_distinct(names: &Vec<String>) -> (r: bool)
    ensures
        r == texts(names@).no_duplicates(),
{
    for i in 0..names.len()
        invariant
            forall|a: int, b: int|
                0 <= a < b < names@.len() && a < i ==> (#[trigger] names@[a])@ != (
                #[trigger] names@[b])@,
    {
        for j in i + 1..names.len()
            invariant
                i < names@.len(),
                forall|a: int, b: int|
                    0 <= a < b < names@.len() && a < i ==> (#[trigger] names@[a])@ != (
                    #[trigger] names@[b])@,
                forall|b: int| i < b < j ==> names@[i as int]@ != (#[trigger] names@[b])@,
        {
            if same(names[i].as_str(), names[j].as_str()) {
                assert(texts(names@)[i as int] == texts(names@)[j as int]);
                return false;
            }
        }
    }
    assert(texts(names@).no_duplicates()) by {
        assert forall|a: int, b: int|
            0 <= a < texts(names@).len() && 0 <= b < texts(names@).len() && a != b implies texts(
            names@,
        )[a] != texts(names@)[b] by {
            if a < b {
                assert(names@[a]@ != names@[b]@);
            } else {
                assert(names@[b]@ != names@[a]@);
            }
        }
    }
    true
}

/// Byte sequences in lexicographic order.
pub open spec fn bytes_less(left: Seq<u8>, right: Seq<u8>) -> bool
    decreases left.len(),
{
    if right.len() == 0 {
        false
    } else if left.len() == 0 {
        true
    } else if left[0] != right[0] {
        left[0] < right[0]
    } else {
        bytes_less(left.subrange(1, left.len() as int), right.subrange(1, right.len() as int))
    }
}

/// Texts in the order of their bytes.
pub open spec fn text_less(left: Seq<char>, right: Seq<char>) -> bool {
    bytes_less(encode_utf8(left), encode_utf8(right))
}

/// The first place at which two byte sequences differ decides their order.
proof fn lemma_common_prefix(left: Seq<u8>, right: Seq<u8>, n: int)
    requires
        0 <= n <= left.len(),
        n <= right.len(),
        forall|i: int| 0 <= i < n ==> left[i] == right[i],
    ensures
        bytes_less(left, right) == bytes_less(
            left.subrange(n, left.len() as int),
            right.subrange(n, right.len() as int),
        ),
    decreases n,
{
    if n == 0 {
        assert(left.subrange(0, left.len() as int) =~= left);
        assert(right.subrange(0, right.len() as int) =~= right);
    } else {
        let l = left.subrange(1, left.len() as int);
        let r = right.subrange(1, right.len() as int);
        lemma_common_prefix(l, r, n - 1);
        assert(l.subrange(n - 1, l.len() as int) =~= left.subrange(n, left.len() as int));
        assert(r.subrange(n - 1, r.len() as int) =~= right.subrange(n, right.len() as int));
    }
}

/// Whether one text comes before another.
pub fn before(left: &str, right: &str) -> (r: bool)
    ensures
        r == text_less(left@, right@),
{
    let a = left.as_bytes();
    let b = right.as_bytes();
    let mut i: usize = 0;
    while i < a.len() && i < b.len() && a[i] == b[i]
        invariant
            i <= a@.len(),
            i <= b@.len(),
            forall|j: int| 0 <= j < i ==> a@[j] == b@[j],
        decreases a@.len() - i,
    {
        i = i + 1;
    }
    proof {
        lemma_common_prefix(a@, b@, i as int);
    }
    if i == b.len() {
        false
    } else if i == a.len() {
        true
    } else {
        a[i] < b[i]
    }
}

/// No byte sequence comes before itself.
pub proof fn lemma_bytes_irreflexive(a: Seq<u8>)
    ensures
        !bytes_less(a, a),
    decreases a.len(),
{
    if a.len() > 0 {
        lemma_bytes_irreflexive(a.subrange(1, a.len() as int));
    }
}

/// Of two different byte sequences one comes before the other.
pub proof fn lemma_bytes_total(a: Seq<u8>, b: Seq<u8>)
    ensures
        bytes_less(a, b) || bytes_less(b, a) || a == b,
    decreases a.len(),
{
    if a.len() > 0 && b.len() > 0 && a[0] == b[0] {
        let l = a.subrange(1, a.len() as int);
        let r = b.subrange(1, b.len() as int);
        lemma_bytes_total(l, r);
        if l == r {
            assert(a =~= seq![a[0]] + l);
            assert(b =~= seq![b[0]] + r);
        }
    } else if a.len() == 0 && b.len() == 0 {
        assert(a =~= b);
    }
}

/// The order of byte sequences is transitive.
pub proof fn lemma_bytes_transitive(a: Seq<u8>, b: Seq<u8>, c: Seq<u8>)
    requires
        bytes_less(a, b),
        bytes_less(b, c),
    ensures
        bytes_less(a, c),
    decreases a.len(),
{
    if a.len() > 0 && a[0] == b[0] && b[0] == c[0] {
        lemma_bytes_transitive(
            a.subrange(1, a.len() as int),
            b.subrange(1, b.len() as int),
            c.subrange(1, c.len() as int),
        );
    }
}

/// A list of texts in strictly rising order.
pub open spec fn is_ascending(texts: Seq<Seq<char>>) -> bool {
    forall|i: int, j: int| 0 <= i < j < texts.len() ==> text_less(#[trigger] texts[i], #[trigger] texts[j])
}

/// The names of a list, each once, in the order of their bytes.
pub fn ascending(names: &Vec<String>) -> (sorted: Vec<String>)
    ensures
        is_ascending(texts(sorted@)),
        texts(sorted@).to_set() == texts(names@).to_set(),
{
    let mut sorted: Vec<String> = Vec::new();
    for i in 0..names.len()
        invariant
            is_ascending(texts(sorted@)),
            texts(sorted@).to_set() == texts(names@.subrange(0, i as int)).to_set(),
    {
        let name = &names[i];
        let mut at: usize = 0;
        while at < sorted.len() && before(sorted[at].as_str(), name.as_str())
            invariant
                at <= sorted@.len(),
                forall|j: int| 0 <= j < at ==> text_less((#[trigger] sorted@[j])@, name@),
            decreases sorted@.len() - at,
        {
            at = at + 1;
        }
        let ghost previous = sorted@;
        if at == sorted.len() || !same(sorted[at].as_str(), name.as_str()) {
            sorted.insert(at, name.clone());
            proof {
                lemma_inserted(previous, at as int, *name);
            }
        }
        proof {
            lemma_extended(names@, i as int);
            let before_set = texts(names@.subrange(0, i as int)).to_set();
            if sorted@ == previous {
                assert(texts(previous)[at as int] == name@);
                assert(before_set.contains(name@));
                assert(before_set.insert(name@) =~= before_set);
            }
        }
    }
    assert(names@.subrange(0, names@.len() as int) =~= names@);
    sorted
}

/// Adding the next name adds its text.
proof fn lemma_extended(names: Seq<String>, i: int)
    requires
        0 <= i < names.len(),
    ensures
        texts(names.subrange(0, i + 1)).to_set() == texts(names.subrange(0, i)).to_set().insert(
            names[i]@,
        ),
{
    let old_texts = texts(names.subrange(0, i));
    let new_texts = texts(names.subrange(0, i + 1));
    assert(new_texts =~= old_texts.push(names[i]@));
    assert forall|t: Seq<char>| new_texts.to_set().contains(t) == old_texts.to_set().insert(
        names[i]@,
    ).contains(t) by {
        if old_texts.contains(t) {
            let k = choose|k: int| 0 <= k < old_texts.len() && old_texts[k] == t;
            assert(new_texts[k] == t);
        }
        if t == names[i]@ {
            assert(new_texts[i] == t);
        }
    }
    assert(new_texts.to_set() =~= old_texts.to_set().insert(names[i]@));
}

/// A text is not before itself, and of two different texts one is before the other.
pub proof fn lemma_text_order(a: Seq<char>, b: Seq<char>)
    ensures
        !text_less(a, a),
        a != b ==> text_less(a, b) || text_less(b, a),
        !(text_less(a, b) && text_less(b, a)),
{
    lemma_bytes_irreflexive(encode_utf8(a));
    lemma_bytes_total(encode_utf8(a), encode_utf8(b));
    encode_utf8_decode_utf8(a);
    encode_utf8_decode_utf8(b);
    if text_less(a, b) && text_less(b, a) {
        lemma_bytes_transitive(encode_utf8(a), encode_utf8(b), encode_utf8(a));
    }
}

/// No text occurs twice in a list in rising order.
pub proof fn lemma_ascending_is_distinct(names: Seq<Seq<char>>)
    requires
        is_ascending(names),
    ensures
        names.no_duplicates(),
{
    assert forall|i: int, j: int| 0 <= i < names.len() && 0 <= j < names.len() && i != j implies
        names[i] != names[j] by {
        if i < j {
            assert(text_less(names[i], names[j]));
        } else {
            assert(text_less(names[j], names[i]));
        }
        lemma_text_order(names[i], names[j]);
    }
}

/// Putting a text where it belongs keeps the order.
pub proof fn lemma_text_inserted(names: Seq<Seq<char>>, at: int, name: Seq<char>)
    requires
        0 <= at <= names.len(),
        is_ascending(names),
        forall|j: int| 0 <= j < at ==> text_less(#[trigger] names[j], name),
        at < names.len() ==> !text_less(names[at], name) && names[at] != name,
    ensures
        is_ascending(names.insert(at, name)),
{
    let next = names.insert(at, name);
    assert forall|j: int| at <= j < names.len() implies text_less(name, #[trigger] names[j]) by {
        lemma_text_order(names[at], name);
        if j > at {
            assert(text_less(names[at], names[j]));
            lemma_bytes_transitive(
                encode_utf8(name),
                encode_utf8(names[at]),
                encode_utf8(names[j]),
            );
        }
    }
    assert forall|i: int, j: int| 0 <= i < j < next.len() implies text_less(
        #[trigger] next[i],
        #[trigger] next[j],
    ) by {
        let a = if i < at { i } else { i - 1 };
        let b = if j < at { j } else { j - 1 };
        if i != at && j != at {
            assert(text_less(names[a], names[b]));
        } else if i == at {
            assert(next[j] == names[j - 1]);
        } else {
            assert(next[i] == names[i]);
        }
    }
}

/// Putting a name where it belongs keeps the order and adds its text.
proof fn lemma_inserted(sorted: Seq<String>, at: int, name: String)
    requires
        0 <= at <= sorted.len(),
        is_ascending(texts(sorted)),
        forall|j: int| 0 <= j < at ==> text_less((#[trigger] sorted[j])@, name@),
        at < sorted.len() ==> !text_less(sorted[at]@, name@) && sorted[at]@ != name@,
    ensures
        is_ascending(texts(sorted.insert(at, name))),
        texts(sorted.insert(at, name)).to_set() == texts(sorted).to_set().insert(name@),
{
    let old_texts = texts(sorted);
    let next = sorted.insert(at, name);
    let new_texts = texts(next);
    lemma_text_inserted(old_texts, at, name@);
    assert(new_texts =~= old_texts.insert(at, name@));
    assert forall|t: Seq<char>| new_texts.to_set().contains(t) == old_texts.to_set().insert(
        name@,
    ).contains(t) by {
        if old_texts.contains(t) {
            let k = choose|k: int| 0 <= k < old_texts.len() && old_texts[k] == t;
            assert(new_texts[if k < at { k } else { k + 1 }] == t);
        }
        if t == name@ {
            assert(new_texts[at] == t);
        }
        if new_texts.contains(t) {
            let k = choose|k: int| 0 <= k < new_texts.len() && new_texts[k] == t;
            if k != at {
                assert(old_texts[if k < at { k } else { k - 1 }] == t);
            }
        }
    }
    assert(new_texts.to_set() =~= old_texts.to_set().insert(name@));
}

/// A control code is one of the first 32 of ASCII or of the 33 after its printable characters.
pub proof fn control_codes(c: char)
    ensures
        is_control(c) <==> c < ' ' || '\u{7f}' <= c < '\u{a0}',
        ' ' <= c <= '~' ==> !is_control(c),
{
}

/// White space is exactly these 25 characters.
pub proof fn white_space(c: char)
    ensures
        is_space(c) <==> c == '\u{9}' || c == '\u{a}' || c == '\u{b}' || c == '\u{c}' || c == '\u{d}' || c == '\u{20}' || c == '\u{85}' || c == '\u{a0}' || c == '\u{1680}' || c == '\u{2000}' || c == '\u{2001}' || c == '\u{2002}' || c == '\u{2003}' || c == '\u{2004}' || c == '\u{2005}' || c == '\u{2006}' || c == '\u{2007}' || c == '\u{2008}' || c == '\u{2009}' || c == '\u{200a}' || c == '\u{2028}' || c == '\u{2029}' || c == '\u{202f}' || c == '\u{205f}' || c == '\u{3000}',
{
}

/// A bounded text shows something, is at most as long as it may be, and holds no control code; every
/// printable ASCII text that is not too long and has something besides spaces is one.
pub proof fn plain_texts(text: Seq<char>, maximum: nat)
    ensures
        is_plain_text(text, maximum) ==> text.len() > 0 && byte_len(text) <= maximum && (forall|i: int|
            0 <= i < text.len() ==> (#[trigger] text[i]) >= ' ' && text[i] != '\u{7f}') && exists|
            i: int,
        |
            0 <= i < text.len() && (#[trigger] text[i]) != ' ' && text[i] != '\u{3000}',
        byte_len(text) <= maximum && (forall|i: int|
            0 <= i < text.len() ==> ' ' <= (#[trigger] text[i]) <= '~') && (exists|i: int|
            0 <= i < text.len() && (#[trigger] text[i]) != ' ') ==> is_plain_text(text, maximum),
{
    if is_plain_text(text, maximum) {
        assert forall|i: int| 0 <= i < text.len() implies (#[trigger] text[i]) >= ' ' && text[i]
            != '\u{7f}' by {
            control_codes(text[i]);
        }
        let i = choose|i: int| 0 <= i < text.len() && !is_space(#[trigger] text[i]);
        assert(text[i] != ' ' && text[i] != '\u{3000}');
    }
    if (forall|i: int| 0 <= i < text.len() ==> ' ' <= (#[trigger] text[i]) <= '~') && (exists|i: int|
        0 <= i < text.len() && (#[trigger] text[i]) != ' ') {
        let i = choose|i: int| 0 <= i < text.len() && (#[trigger] text[i]) != ' ';
        white_space(text[i]);
        assert forall|j: int| 0 <= j < text.len() implies !is_control(#[trigger] text[j]) by {
            control_codes(text[j]);
        }
    }
}

/// An identifier holds letters and digits of ASCII, the hyphen, the underscore and the full stop.
pub proof fn identifier_characters(c: char)
    ensures
        is_identifier_char(c) <==> 'a' <= c <= 'z' || 'A' <= c <= 'Z' || '0' <= c <= '9' || c == '-'
            || c == '_' || c == '.',
{
}

/// A token can stand as one part of a path: it is not empty, holds no separator, no space and no
/// control code, and names neither a directory itself nor the one above. Every text of letters,
/// digits, hyphens and underscores that is not empty and not too long is one.
pub proof fn tokens_are_one_part(text: Seq<char>, maximum: nat)
    ensures
        is_token(text, maximum) ==> text.len() > 0 && byte_len(text) <= maximum && text != "."@
            && text != ".."@ && forall|i: int|
            0 <= i < text.len() ==> (#[trigger] text[i]) != '/' && text[i] != '\\' && text[i] != ':'
                && text[i] > ' ' && text[i] < '\u{7f}',
        text.len() > 0 && byte_len(text) <= maximum && (forall|i: int|
            0 <= i < text.len() ==> 'a' <= (#[trigger] text[i]) <= 'z' || 'A' <= text[i] <= 'Z' || '0'
                <= text[i] <= '9' || text[i] == '-' || text[i] == '_') ==> is_token(text, maximum),
{
    reveal_strlit(".");
    reveal_strlit("..");
    if is_token(text, maximum) {
        assert forall|i: int| 0 <= i < text.len() implies (#[trigger] text[i]) != '/' && text[i]
            != '\\' && text[i] != ':' && text[i] > ' ' && text[i] < '\u{7f}' by {
            identifier_characters(text[i]);
        }
    }
    if text.len() > 0 && (forall|i: int|
        0 <= i < text.len() ==> 'a' <= (#[trigger] text[i]) <= 'z' || 'A' <= text[i] <= 'Z' || '0'
            <= text[i] <= '9' || text[i] == '-' || text[i] == '_') {
        assert(text[0] != '.');
        assert("."@[0] == '.');
        assert(".."@[0] == '.');
        assert forall|i: int| 0 <= i < text.len() implies is_identifier_char(#[trigger] text[i]) by {
            identifier_characters(text[i]);
        }
    }
}

/// Of two byte sequences, the one that has the lower byte where they first differ comes first; a
/// sequence comes before every longer one that begins with it.
pub proof fn first_difference_decides(common: Seq<u8>, left: Seq<u8>, right: Seq<u8>)
    ensures
        bytes_less(common + left, common + right) == bytes_less(left, right),
        left.len() > 0 && right.len() > 0 && left[0] < right[0] ==> bytes_less(
            common + left,
            common + right,
        ) && !bytes_less(common + right, common + left),
        right.len() > 0 ==> bytes_less(common, common + right) && !bytes_less(
            common + right,
            common,
        ),
{
    let n = common.len() as int;
    let a = common + left;
    let b = common + right;
    lemma_common_prefix(a, b, n);
    lemma_common_prefix(b, a, n);
    lemma_common_prefix(common, b, n);
    lemma_common_prefix(b, common, n);
    assert(a.subrange(n, a.len() as int) =~= left);
    assert(b.subrange(n, b.len() as int) =~= right);
    assert(common.subrange(n, n) =~= Seq::<u8>::empty());
}

/// A list of texts holds the texts of its names, each at its place.
pub proof fn texts_at_their_places(names: Seq<String>, text: Seq<char>)
    ensures
        texts(names).len() == names.len(),
        texts(names).contains(text) <==> exists|i: int|
            0 <= i < names.len() && (#[trigger] names[i])@ == text,
{
    let all = texts(names);
    if all.contains(text) {
        let i = choose|i: int| 0 <= i < all.len() && all[i] == text;
        assert(names[i]@ == text);
    }
    if exists|i: int| 0 <= i < names.len() && (#[trigger] names[i])@ == text {
        let i = choose|i: int| 0 <= i < names.len() && (#[trigger] names[i])@ == text;
        assert(all[i] == text);
    }
}

/// A text is trimmed if no white space stands at either of its ends.
pub proof fn trimmed_at_both_ends(text: Seq<char>)
    ensures
        text.len() == 0 ==> is_trimmed(text),
        text.len() > 0 ==> (is_trimmed(text) <==> !is_blank(seq![text[0]]) && !is_blank(
            seq![text[text.len() - 1]],
        )),
{
    if text.len() > 0 {
        let first = seq![text[0]];
        let last = seq![text[text.len() - 1]];
        assert(first[0] == text[0] && last[0] == text[text.len() - 1]);
        assert(is_blank(first) <==> is_space(text[0]));
        assert(is_blank(last) <==> is_space(text[text.len() - 1]));
    }
}

} // verus!
