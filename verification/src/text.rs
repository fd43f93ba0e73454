//! Character sequences: searching, splitting, joining, ordering and decimal numbers.
use vstd::prelude::*;

verus! {

/// `String::push` of std appends one character.
pub assume_specification[ String::push ](s: &mut String, c: char)
    ensures
        final(s)@ == old(s)@.push(c),
;

/// The contents of each string of a list.
pub open spec fn views(list: Seq<String>) -> Seq<Seq<char>> {
    list.map_values(|s: String| s@)
}

/// The contents of an optional string.
pub open spec fn opt_view(s: Option<String>) -> Option<Seq<char>> {
    match s {
        Some(value) => Some(value@),
        None => None,
    }
}

/// `a` comes before `b` in the order of their characters, a prefix coming first.
pub open spec fn text_less(a: Seq<char>, b: Seq<char>) -> bool
    decreases b.len(),
{
    if b.len() == 0 {
        false
    } else if a.len() == 0 {
        true
    } else {
        a[0] < b[0] || (a[0] == b[0] && text_less(a.skip(1), b.skip(1)))
    }
}

pub proof fn lemma_text_less_irreflexive(a: Seq<char>)
    ensures
        !text_less(a, a),
    decreases a.len(),
{
    if a.len() > 0 {
        lemma_text_less_irreflexive(a.skip(1));
    }
}

pub proof fn lemma_text_less_transitive(a: Seq<char>, b: Seq<char>, c: Seq<char>)
    requires
        text_less(a, b),
        text_less(b, c),
    ensures
        text_less(a, c),
    decreases c.len(),
{
    if a.len() > 0 && a[0] == b[0] && b[0] == c[0] {
        lemma_text_less_transitive(a.skip(1), b.skip(1), c.skip(1));
    }
}

pub proof fn lemma_text_less_total(a: Seq<char>, b: Seq<char>)
    ensures
        text_less(a, b) || a == b || text_less(b, a),
    decreases a.len(),
{
    if a.len() > 0 && b.len() > 0 && a[0] == b[0] {
        lemma_text_less_total(a.skip(1), b.skip(1));
        if a.skip(1) == b.skip(1) {
            assert(a =~= seq![a[0]] + a.skip(1));
            assert(b =~= seq![b[0]] + b.skip(1));
        }
    } else if a.len() == 0 && b.len() == 0 {
        assert(a =~= b);
    }
}

pub proof fn lemma_text_less_asymmetric(a: Seq<char>, b: Seq<char>)
    requires
        text_less(a, b),
    ensures
        !text_less(b, a),
        a != b,
{
    lemma_text_less_irreflexive(a);
    if text_less(b, a) {
        lemma_text_less_transitive(a, b, a);
    }
}

/// The characters of a string.
pub fn chars_of(s: &str) -> (r: Vec<char>)
    ensures
        r@ == s@,
{
    let mut r: Vec<char> = Vec::new();
    for c in it: s.chars()
        invariant
            it.seq() == s@,
            r@ == s@.take(it.index()),
    {
        r.push(c);
        assert(s@.take(it.index() + 1) =~= s@.take(it.index()).push(c));
    }
    assert(s@.take(s@.len() as int) =~= s@);
    r
}

/// The string with the given characters.
pub fn string_of(chars: &[char]) -> (r: String)
    ensures
        r@ == chars@,
{
    let mut r = String::new();
    let mut i: usize = 0;
    while i < chars.len()
        invariant
            0 <= i <= chars.len(),
            r@ == chars@.take(i as int),
        decreases chars.len() - i,
    {
        r.push(chars[i]);
        i += 1;
        assert(chars@.take(i as int) =~= chars@.take(i - 1).push(chars@[i - 1]));
    }
    assert(chars@.take(i as int) =~= chars@);
    r
}

/// The characters `from..to` as a string.
pub fn part_of(chars: &Vec<char>, from: usize, to: usize) -> (r: String)
    requires
        from <= to <= chars.len(),
    ensures
        r@ == chars@.subrange(from as int, to as int),
{
    string_of(vstd::slice::slice_subrange(chars.as_slice(), from, to))
}

fn same_chars(a: &Vec<char>, b: &Vec<char>) -> (r: bool)
    ensures
        r == (a@ == b@),
{
    if a.len() != b.len() {
        return false;
    }
    let mut i: usize = 0;
    while i < a.len()
        invariant
            0 <= i <= a.len() == b.len(),
            a@.take(i as int) == b@.take(i as int),
        decreases a.len() - i,
    {
        if a[i] != b[i] {
            assert(a@ != b@);
            return false;
        }
        i += 1;
        assert(a@.take(i as int) =~= a@.take(i - 1).push(a@[i - 1]));
        assert(b@.take(i as int) =~= b@.take(i - 1).push(b@[i - 1]));
    }
    assert(a@.take(i as int) =~= a@);
    assert(b@.take(i as int) =~= b@);
    true
}

/// Whether two strings have the same characters.
pub fn same_text(a: &str, b: &str) -> (r: bool)
    ensures
        r == (a@ == b@),
{
    let x = chars_of(a);
    let y = chars_of(b);
    same_chars(&x, &y)
}

/// Whether two optional strings are both absent or have the same characters.
pub fn same_option(a: &Option<String>, b: &Option<String>) -> (r: bool)
    ensures
        r == (opt_view(*a) == opt_view(*b)),
{
    match (a, b) {
        (Some(x), Some(y)) => same_text(x.as_str(), y.as_str()),
        (None, None) => true,
        _ => false,
    }
}

/// Whether `a` comes before `b` in character order.
pub fn text_before(a: &str, b: &str) -> (r: bool)
    ensures
        r == text_less(a@, b@),
{
    let x = chars_of(a);
    let y = chars_of(b);
    let mut i: usize = 0;
    assert(x@.skip(0) =~= x@);
    assert(y@.skip(0) =~= y@);
    while i < x.len() && i < y.len() && x[i] == y[i]
        invariant
            0 <= i <= x.len(),
            i <= y.len(),
            text_less(x@, y@) == text_less(x@.skip(i as int), y@.skip(i as int)),
        decreases x.len() - i,
    {
        assert(x@.skip(i as int).skip(1) =~= x@.skip(i + 1));
        assert(y@.skip(i as int).skip(1) =~= y@.skip(i + 1));
        i += 1;
    }
    if i >= y.len() {
        false
    } else if i >= x.len() {
        true
    } else {
        x[i] < y[i]
    }
}

/// Whether `list` holds a string with the contents `text`.
pub fn list_has(list: &Vec<String>, text: &str) -> (r: bool)
    ensures
        r == views(list@).contains(text@),
{
    let mut i: usize = 0;
    while i < list.len()
        invariant
            0 <= i <= list.len(),
            forall|j: int| 0 <= j < i ==> #[trigger] views(list@)[j] != text@,
        decreases list.len() - i,
    {
        assert(views(list@)[i as int] == list@[i as int]@);
        if same_text(list[i].as_str(), text) {
            return true;
        }
        i += 1;
    }
    false
}

/// The characters that count as whitespace.
pub open spec fn is_space(c: char) -> bool {
    let n = c as u32;
    ||| 0x09 <= n <= 0x0d
    ||| n == 0x20
    ||| n == 0x85
    ||| n == 0xa0
    ||| n == 0x1680
    ||| 0x2000 <= n <= 0x200a
    ||| n == 0x2028
    ||| n == 0x2029
    ||| n == 0x202f
    ||| n == 0x205f
    ||| n == 0x3000
}

/// Whether a character is whitespace.
pub fn space(c: char) -> (r: bool)
    ensures
        r == is_space(c),
{
    let n: u32 = c as u32;
    (0x09 <= n && n <= 0x0d) || n == 0x20 || n == 0x85 || n == 0xa0 || n == 0x1680 || (0x2000 <= n
        && n <= 0x200a) || n == 0x2028 || n == 0x2029 || n == 0x202f || n == 0x205f || n == 0x3000
}

/// `s` without the whitespace at its start.
pub open spec fn trim_start(s: Seq<char>) -> Seq<char>
    decreases s.len(),
{
    if s.len() > 0 && is_space(s[0]) {
        trim_start(s.skip(1))
    } else {
        s
    }
}

/// `s` without the whitespace at its end.
pub open spec fn trim_end(s: Seq<char>) -> Seq<char>
    decreases s.len(),
{
    if s.len() > 0 && is_space(s.last()) {
        trim_end(s.drop_last())
    } else {
        s
    }
}

/// `s` without the whitespace at either end.
pub open spec fn trim(s: Seq<char>) -> Seq<char> {
    trim_end(trim_start(s))
}

/// The text without the whitespace at either end.
pub fn trimmed(s: &str) -> (r: String)
    ensures
        r@ == trim(s@),
{
    let c = chars_of(s);
    let mut from: usize = 0;
    assert(c@.skip(0) =~= c@);
    while from < c.len() && space(c[from])
        invariant
            0 <= from <= c.len(),
            trim_start(c@) == trim_start(c@.skip(from as int)),
        decreases c.len() - from,
    {
        assert(c@.skip(from as int).skip(1) =~= c@.skip(from + 1));
        from += 1;
    }
    let mut to: usize = c.len();
    assert(c@.skip(from as int) =~= c@.subrange(from as int, to as int));
    assert(trim_start(c@) == c@.subrange(from as int, to as int));
    while to > from && space(c[to - 1])
        invariant
            from <= to <= c.len(),
            trim(c@) == trim_end(c@.subrange(from as int, to as int)),
        decreases to,
    {
        assert(c@.subrange(from as int, to as int).drop_last() =~= c@.subrange(
            from as int,
            to - 1,
        ));
        to -= 1;
    }
    part_of(&c, from, to)
}

/// The pieces of `s` between the occurrences of `sep`.
pub open spec fn split(s: Seq<char>, sep: char) -> Seq<Seq<char>>
    decreases s.len(),
{
    if s.len() == 0 {
        seq![Seq::<char>::empty()]
    } else {
        let before = split(s.drop_last(), sep);
        if s.last() == sep {
            before.push(Seq::empty())
        } else {
            before.drop_last().push(before.last().push(s.last()))
        }
    }
}

/// The texts of a list, with `sep` between each two.
pub open spec fn join(parts: Seq<Seq<char>>, sep: Seq<char>) -> Seq<char>
    decreases parts.len(),
{
    if parts.len() == 0 {
        Seq::empty()
    } else if parts.len() == 1 {
        parts[0]
    } else {
        join(parts.drop_last(), sep) + sep + parts.last()
    }
}

pub proof fn lemma_split_nonempty(s: Seq<char>, sep: char)
    ensures
        split(s, sep).len() > 0,
    decreases s.len(),
{
    if s.len() > 0 {
        lemma_split_nonempty(s.drop_last(), sep);
    }
}

/// No piece of a split holds the separator.
pub proof fn lemma_pieces_lack_separator(s: Seq<char>, sep: char, i: int)
    requires
        0 <= i < split(s, sep).len(),
    ensures
        !split(s, sep)[i].contains(sep),
    decreases s.len(),
{
    if s.len() > 0 {
        let before = split(s.drop_last(), sep);
        lemma_split_nonempty(s.drop_last(), sep);
        if i < before.len() {
            lemma_pieces_lack_separator(s.drop_last(), sep, i);
            if s.last() != sep && i == before.len() - 1 {
                assert forall|k: int| 0 <= k < split(s, sep)[i].len() implies split(
                    s,
                    sep,
                )[i][k] != sep by {
                    if k < before.last().len() {
                        assert(before.last()[k] != sep);
                    }
                }
            }
        }
    }
}

/// Joining what a split gave restores the text.
pub proof fn lemma_join_split(s: Seq<char>, sep: char)
    ensures
        join(split(s, sep), seq![sep]) == s,
    decreases s.len(),
{
    if s.len() > 0 {
        let before = split(s.drop_last(), sep);
        lemma_join_split(s.drop_last(), sep);
        lemma_split_nonempty(s.drop_last(), sep);
        let all = split(s, sep);
        assert(s =~= s.drop_last().push(s.last()));
        if s.last() == sep {
            assert(all.drop_last() =~= before);
            assert(join(all, seq![sep]) =~= s);
        } else {
            if before.len() == 1 {
                assert(join(all, seq![sep]) =~= s);
            } else {
                assert(all.drop_last() =~= before.drop_last());
                assert(join(all, seq![sep]) =~= s);
            }
        }
    } else {
        assert(join(split(s, sep), seq![sep]) =~= s);
    }
}

/// Splits a text at each `sep`.
pub fn split_text(s: &str, sep: char) -> (r: Vec<String>)
    ensures
        views(r@) == split(s@, sep),
{
    let c = chars_of(s);
    let mut parts: Vec<String> = Vec::new();
    let mut current = String::new();
    let mut i: usize = 0;
    assert(split(c@.take(0), sep) =~= views(parts@).push(current@));
    while i < c.len()
        invariant
            0 <= i <= c.len(),
            split(c@.take(i as int), sep) == views(parts@).push(current@),
        decreases c.len() - i,
    {
        assert(c@.take(i + 1).drop_last() =~= c@.take(i as int));
        let ghost before = views(parts@).push(current@);
        assert(before.last() == current@);
        assert(before.drop_last() =~= views(parts@));
        if c[i] == sep {
            let ghost old_parts = parts@;
            parts.push(current);
            current = String::new();
            assert(views(parts@) =~= before);
        } else {
            current.push(c[i]);
        }
        i += 1;
    }
    let ghost old_parts = parts@;
    parts.push(current);
    assert(views(parts@) =~= views(old_parts).push(current@));
    assert(c@.take(i as int) =~= c@);
    parts
}

/// Joins texts with a separator.
pub fn join_text(parts: &Vec<String>, sep: &str) -> (r: String)
    ensures
        r@ == join(views(parts@), sep@),
{
    let mut r = String::new();
    let mut i: usize = 0;
    assert(views(parts@).take(0) =~= Seq::empty());
    while i < parts.len()
        invariant
            0 <= i <= parts.len(),
            r@ == join(views(parts@).take(i as int), sep@),
        decreases parts.len() - i,
    {
        let ghost next = views(parts@).take(i + 1);
        assert(next.drop_last() =~= views(parts@).take(i as int));
        assert(next.last() == parts@[i as int]@);
        if i > 0 {
            r.append(sep);
        }
        r.append(parts[i].as_str());
        if i == 0 {
            assert(r@ =~= parts@[0]@);
        }
        i += 1;
    }
    assert(views(parts@).take(i as int) =~= views(parts@));
    r
}

/// Whether `s` starts with `prefix`.
pub fn has_prefix(s: &str, prefix: &str) -> (r: bool)
    ensures
        r == prefix@.is_prefix_of(s@),
{
    let c = chars_of(s);
    let p = chars_of(prefix);
    if p.len() > c.len() {
        return false;
    }
    let mut i: usize = 0;
    while i < p.len()
        invariant
            0 <= i <= p.len() <= c.len(),
            c@ == s@,
            p@ == prefix@,
            forall|j: int| 0 <= j < i ==> p@[j] == c@[j],
        decreases p.len() - i,
    {
        if p[i] != c[i] {
            assert(c@.subrange(0, p.len() as int)[i as int] == c@[i as int]);
            return false;
        }
        i += 1;
    }
    assert(p@ =~= c@.subrange(0, p.len() as int));
    true
}

/// Whether `s` ends with `suffix`.
pub fn has_suffix(s: &str, suffix: &str) -> (r: bool)
    ensures
        r == suffix@.is_suffix_of(s@),
{
    let c = chars_of(s);
    let p = chars_of(suffix);
    if p.len() > c.len() {
        return false;
    }
    let offset: usize = c.len() - p.len();
    let mut i: usize = 0;
    while i < p.len()
        invariant
            0 <= i <= p.len() <= c.len(),
            c@ == s@,
            p@ == suffix@,
            offset == c.len() - p.len(),
            forall|j: int| 0 <= j < i ==> p@[j] == c@[offset + j],
        decreases p.len() - i,
    {
        if p[i] != c[offset + i] {
            assert(c@.subrange(offset as int, c.len() as int)[i as int] == c@[offset + i]);
            return false;
        }
        i += 1;
    }
    assert(p@ =~= c@.subrange(offset as int, c.len() as int));
    true
}

/// `s` after `prefix`, where `s` starts with it.
pub open spec fn after_prefix(s: Seq<char>, prefix: Seq<char>) -> Option<Seq<char>> {
    if prefix.is_prefix_of(s) {
        Some(s.skip(prefix.len() as int))
    } else {
        None
    }
}

/// The rest of `s` after `prefix`, if `s` starts with it.
pub fn strip_prefix_text(s: &str, prefix: &str) -> (r: Option<String>)
    ensures
        opt_view(r) == after_prefix(s@, prefix@),
{
    if has_prefix(s, prefix) {
        let c = chars_of(s);
        let p = chars_of(prefix);
        assert(c@.subrange(p.len() as int, c.len() as int) =~= c@.skip(p.len() as int));
        Some(part_of(&c, p.len(), c.len()))
    } else {
        None
    }
}

/// `s` before `suffix`, where `s` ends with it.
pub open spec fn before_suffix(s: Seq<char>, suffix: Seq<char>) -> Option<Seq<char>> {
    if suffix.is_suffix_of(s) {
        Some(s.take(s.len() - suffix.len()))
    } else {
        None
    }
}

/// What precedes `suffix` in `s`, if `s` ends with it.
pub fn strip_suffix_text(s: &str, suffix: &str) -> (r: Option<String>)
    ensures
        opt_view(r) == before_suffix(s@, suffix@),
{
    if has_suffix(s, suffix) {
        let c = chars_of(s);
        let p = chars_of(suffix);
        assert(c@.subrange(0, c.len() - p.len()) =~= c@.take(c.len() - p.len()));
        Some(part_of(&c, 0, c.len() - p.len()))
    } else {
        None
    }
}

/// Two texts, one after the other.
pub fn cat2(a: &str, b: &str) -> (r: String)
    ensures
        r@ == a@ + b@,
{
    let mut r = a.to_owned();
    r.append(b);
    r
}

/// Three texts, one after the other.
pub fn cat3(a: &str, b: &str, c: &str) -> (r: String)
    ensures
        r@ == a@ + b@ + c@,
{
    let mut r = cat2(a, b);
    r.append(c);
    r
}

/// Four texts, one after the other.
pub fn cat4(a: &str, b: &str, c: &str, d: &str) -> (r: String)
    ensures
        r@ == a@ + b@ + c@ + d@,
{
    let mut r = cat3(a, b, c);
    r.append(d);
    r
}

/// Five texts, one after the other.
pub fn cat5(a: &str, b: &str, c: &str, d: &str, e: &str) -> (r: String)
    ensures
        r@ == a@ + b@ + c@ + d@ + e@,
{
    let mut r = cat4(a, b, c, d);
    r.append(e);
    r
}

/// Those texts of a list that are not empty, in order.
pub open spec fn nonempty(parts: Seq<Seq<char>>) -> Seq<Seq<char>> {
    parts.filter(|p: Seq<char>| p.len() > 0)
}

/// Keeps the texts that are not empty.
pub fn keep_nonempty(parts: Vec<String>) -> (r: Vec<String>)
    ensures
        views(r@) == nonempty(views(parts@)),
{
    let mut r: Vec<String> = Vec::new();
    let mut i: usize = 0;
    assert(views(parts@).take(0) =~= Seq::empty());
    assert(nonempty(views(parts@).take(0)) =~= Seq::empty()) by {
        reveal(Seq::filter);
    }
    while i < parts.len()
        invariant
            0 <= i <= parts.len(),
            views(r@) == nonempty(views(parts@).take(i as int)),
        decreases parts.len() - i,
    {
        let ghost next = views(parts@).take(i + 1);
        assert(next.drop_last() =~= views(parts@).take(i as int));
        assert(next.last() == parts@[i as int]@);
        reveal(Seq::filter);
        let ghost before = r@;
        if !is_blank(parts[i].as_str()) {
            r.push(parts[i].clone());
            assert(views(r@) =~= views(before).push(parts@[i as int]@));
        }
        i += 1;
    }
    assert(views(parts@).take(i as int) =~= views(parts@));
    r
}

/// Whether a text has no characters.
pub fn is_blank(s: &str) -> (r: bool)
    ensures
        r == (s@.len() == 0),
{
    let c = chars_of(s);
    c.len() == 0
}

/// A second optional string with the same contents.
pub fn copy_option(s: &Option<String>) -> (r: Option<String>)
    ensures
        opt_view(r) == opt_view(*s),
{
    match s {
        Some(value) => Some(value.clone()),
        None => None,
    }
}

/// A second list with the same texts.
pub fn copy_list(list: &Vec<String>) -> (r: Vec<String>)
    ensures
        views(r@) == views(list@),
{
    let mut r: Vec<String> = Vec::new();
    let mut i: usize = 0;
    while i < list.len()
        invariant
            0 <= i <= list.len(),
            views(r@) == views(list@).take(i as int),
        decreases list.len() - i,
    {
        let ghost before = r@;
        r.push(list[i].clone());
        assert(views(r@) =~= views(before).push(list@[i as int]@));
        i += 1;
        assert(views(list@).take(i as int) =~= views(list@).take(i - 1).push(list@[i - 1]@));
    }
    assert(views(list@).take(i as int) =~= views(list@));
    r
}

/// Whether two lists hold the same texts in the same order.
pub fn same_list(a: &Vec<String>, b: &Vec<String>) -> (r: bool)
    ensures
        r == (views(a@) == views(b@)),
{
    if a.len() != b.len() {
        assert(views(a@).len() != views(b@).len());
        return false;
    }
    let mut i: usize = 0;
    while i < a.len()
        invariant
            0 <= i <= a.len() == b.len(),
            forall|j: int| 0 <= j < i ==> (#[trigger] a@[j])@ == b@[j]@,
        decreases a.len() - i,
    {
        if !same_text(a[i].as_str(), b[i].as_str()) {
            assert(views(a@)[i as int] != views(b@)[i as int]);
            return false;
        }
        i += 1;
    }
    assert(views(a@) =~= views(b@));
    true
}

/// Strictly increasing in text order, so without repetitions.
pub open spec fn increasing(list: Seq<Seq<char>>) -> bool {
    forall|i: int, j: int| 0 <= i < j < list.len() ==> text_less(#[trigger] list[i], #[trigger] list[j])
}

/// Adds a text to a list that is kept in increasing order.
pub fn insert_ordered(list: &mut Vec<String>, text: &str)
    requires
        increasing(views(old(list)@)),
    ensures
        increasing(views(final(list)@)),
        forall|t: Seq<char>| #[trigger]
            views(final(list)@).contains(t) <==> (views(old(list)@).contains(t) || t == text@),
{
    let ghost before = views(list@);
    let mut i: usize = 0;
    while i < list.len() && text_before(list[i].as_str(), text)
        invariant
            0 <= i <= list.len(),
            before == views(list@),
            forall|j: int| 0 <= j < i ==> text_less(#[trigger] before[j], text@),
        decreases list.len() - i,
    {
        assert(before[i as int] == list@[i as int]@);
        i += 1;
    }
    if i < list.len() && same_text(list[i].as_str(), text) {
        assert(before[i as int] == text@);
        return;
    }
    list.insert(i, text.to_owned());
    let ghost after = views(list@);
    assert(after =~= before.insert(i as int, text@));
    proof {
        if i < before.len() {
            lemma_text_less_total(before[i as int], text@);
            assert forall|j: int| i <= j < before.len() implies text_less(text@, #[trigger] before[j]) by {
                if j > i {
                    lemma_text_less_transitive(text@, before[i as int], before[j]);
                }
            }
        }
        assert forall|a: int, b: int| 0 <= a < b < after.len() implies text_less(
            #[trigger] after[a],
            #[trigger] after[b],
        ) by {
            let x = if a < i { a } else { a - 1 };
            let y = if b < i { b } else { b - 1 };
            if a != i && b != i {
                assert(text_less(before[x], before[y]));
            } else if a == i {
                assert(text_less(text@, before[y]));
            } else {
                assert(text_less(before[x], text@));
            }
        }
        assert forall|t: Seq<char>| #[trigger] after.contains(t) <==> (before.contains(t) || t
            == text@) by {
            if before.contains(t) {
                let k = choose|k: int| 0 <= k < before.len() && before[k] == t;
                let m = if k < i { k } else { k + 1 };
                assert(after[m] == t);
            }
            if t == text@ {
                assert(after[i as int] == t);
            }
            if after.contains(t) {
                let k = choose|k: int| 0 <= k < after.len() && after[k] == t;
                if k < i {
                    assert(before[k] == t);
                } else if k > i {
                    assert(before[k - 1] == t);
                }
            }
        }
    }
}

/// The lines of a text: what ends in a newline, with one carriage return before it dropped, and
/// what is left after the last newline.
pub open spec fn lines(s: Seq<char>) -> Seq<Seq<char>> {
    let pieces = split(s, '\n');
    let ended = pieces.drop_last().map_values(|line: Seq<char>| without_return(line));
    if pieces.last().len() == 0 {
        ended
    } else {
        ended.push(pieces.last())
    }
}

/// A line without the carriage return at its end.
pub open spec fn without_return(line: Seq<char>) -> Seq<char> {
    if line.len() > 0 && line.last() == '\r' {
        line.drop_last()
    } else {
        line
    }
}

/// The lines of a text.
pub fn lines_of(s: &str) -> (r: Vec<String>)
    ensures
        views(r@) == lines(s@),
{
    let pieces = split_text(s, '\n');
    let ghost all = views(pieces@);
    proof {
        lemma_split_nonempty(s@, '\n');
    }
    let last: usize = pieces.len() - 1;
    let mut r: Vec<String> = Vec::new();
    let mut i: usize = 0;
    let ghost ended = all.drop_last().map_values(|line: Seq<char>| without_return(line));
    assert(views(r@) =~= ended.take(0));
    while i < last
        invariant
            0 <= i <= last,
            last == pieces.len() - 1,
            all == views(pieces@),
            ended == all.drop_last().map_values(|line: Seq<char>| without_return(line)),
            views(r@) == ended.take(i as int),
        decreases last - i,
    {
        let c = chars_of(pieces[i].as_str());
        let line = if c.len() > 0 && c[c.len() - 1] == '\r' {
            assert(c@.subrange(0, c.len() - 1) =~= c@.drop_last());
            part_of(&c, 0, c.len() - 1)
        } else {
            pieces[i].clone()
        };
        let ghost before = r@;
        r.push(line);
        assert(views(r@) =~= views(before).push(line@));
        i += 1;
        assert(ended.take(i as int) =~= ended.take(i - 1).push(ended[i - 1]));
        assert(ended[i - 1] == without_return(all[i - 1]));
    }
    assert(ended.take(i as int) =~= ended);
    if !is_blank(pieces[last].as_str()) {
        let ghost before = r@;
        r.push(pieces[last].clone());
        assert(views(r@) =~= views(before).push(all.last()));
    }
    r
}

/// A text can be added to a list in increasing order, so that the list stays one.
pub proof fn lemma_increasing_with(list: Seq<Seq<char>>, t: Seq<char>) -> (r: Seq<Seq<char>>)
    requires
        increasing(list),
    ensures
        increasing(r),
        forall|u: Seq<char>| #[trigger] r.contains(u) <==> (list.contains(u) || u == t),
    decreases list.len(),
{
    if list.len() == 0 {
        let r = seq![t];
        assert forall|u: Seq<char>| #[trigger] r.contains(u) implies u == t by {}
        assert(r[0] == t);
        r
    } else if list.last() == t {
        assert(list[list.len() - 1] == t);
        list
    } else if text_less(list.last(), t) {
        let r = list.push(t);
        assert forall|i: int, j: int| 0 <= i < j < r.len() implies text_less(
            #[trigger] r[i],
            #[trigger] r[j],
        ) by {
            if j == list.len() {
                if i < list.len() - 1 {
                    assert(text_less(list[i], list[list.len() - 1]));
                    lemma_text_less_transitive(list[i], list.last(), t);
                }
            } else {
                assert(text_less(list[i], list[j]));
            }
        }
        assert forall|u: Seq<char>| #[trigger]
            r.contains(u) <==> (list.contains(u) || u == t) by {
            if list.contains(u) {
                let k = choose|k: int| 0 <= k < list.len() && list[k] == u;
                assert(r[k] == u);
            }
            assert(r[list.len() as int] == t);
            if r.contains(u) {
                let k = choose|k: int| 0 <= k < r.len() && r[k] == u;
                if k < list.len() {
                    assert(list[k] == u);
                }
            }
        }
        r
    } else {
        lemma_text_less_total(list.last(), t);
        let head = list.drop_last();
        assert forall|i: int, j: int| 0 <= i < j < head.len() implies text_less(
            #[trigger] head[i],
            #[trigger] head[j],
        ) by {
            assert(text_less(list[i], list[j]));
        }
        let below = lemma_increasing_with(head, t);
        let r = below.push(list.last());
        assert forall|i: int, j: int| 0 <= i < j < r.len() implies text_less(
            #[trigger] r[i],
            #[trigger] r[j],
        ) by {
            if j == below.len() {
                assert(below.contains(below[i]));
                if head.contains(below[i]) {
                    let k = choose|k: int| 0 <= k < head.len() && head[k] == below[i];
                    assert(text_less(list[k], list[list.len() - 1]));
                }
            } else {
                assert(text_less(below[i], below[j]));
            }
        }
        assert forall|u: Seq<char>| #[trigger]
            r.contains(u) <==> (list.contains(u) || u == t) by {
            if list.contains(u) {
                let k = choose|k: int| 0 <= k < list.len() && list[k] == u;
                if k < list.len() - 1 {
                    assert(head[k] == u);
                    assert(head.contains(u));
                }
            }
            if below.contains(u) {
                let k = choose|k: int| 0 <= k < below.len() && below[k] == u;
                assert(r[k] == u);
            }
            assert(r[below.len() as int] == list.last());
            if r.contains(u) {
                let k = choose|k: int| 0 <= k < r.len() && r[k] == u;
                if k < below.len() {
                    assert(below[k] == u);
                    assert(below.contains(u));
                    if head.contains(u) {
                        let j = choose|j: int| 0 <= j < head.len() && head[j] == u;
                        assert(list[j] == u);
                    }
                } else {
                    assert(list[list.len() - 1] == u);
                }
            }
        }
        r
    }
}

/// Two lists in increasing order that hold the same texts are the same list.
pub proof fn lemma_increasing_unique(a: Seq<Seq<char>>, b: Seq<Seq<char>>)
    requires
        increasing(a),
        increasing(b),
        forall|t: Seq<char>| #[trigger] a.contains(t) <==> b.contains(t),
    ensures
        a == b,
    decreases a.len(),
{
    if a.len() == 0 {
        if b.len() > 0 {
            assert(b.contains(b[0]));
            assert(a.contains(b[0]));
        }
        assert(a =~= b);
    } else {
        assert(a.contains(a[0]));
        assert(b.contains(a[0]));
        assert(b.len() > 0);
        assert(b.contains(b[0]));
        assert(a.contains(b[0]));
        let i = choose|i: int| 0 <= i < b.len() && b[i] == a[0];
        let j = choose|j: int| 0 <= j < a.len() && a[j] == b[0];
        if i > 0 {
            assert(text_less(b[0], b[i]));
            if j > 0 {
                assert(text_less(a[0], a[j]));
                lemma_text_less_asymmetric(a[0], b[0]);
            }
        }
        assert(a[0] == b[0]) by {
            if i > 0 && j == 0 {
                lemma_text_less_irreflexive(a[0]);
            }
        }
        let x = a.skip(1);
        let y = b.skip(1);
        assert forall|t: Seq<char>| #[trigger] x.contains(t) implies y.contains(t) by {
            let k = choose|k: int| 0 <= k < x.len() && x[k] == t;
            assert(a[k + 1] == t);
            assert(text_less(a[0], a[k + 1]));
            lemma_text_less_asymmetric(a[0], t);
            assert(a.contains(t));
            assert(b.contains(t));
            let m = choose|m: int| 0 <= m < b.len() && b[m] == t;
            assert(y[m - 1] == t);
        }
        assert forall|t: Seq<char>| #[trigger] y.contains(t) implies x.contains(t) by {
            let k = choose|k: int| 0 <= k < y.len() && y[k] == t;
            assert(b[k + 1] == t);
            assert(text_less(b[0], b[k + 1]));
            lemma_text_less_asymmetric(b[0], t);
            assert(b.contains(t));
            assert(a.contains(t));
            let m = choose|m: int| 0 <= m < a.len() && a[m] == t;
            assert(x[m - 1] == t);
        }
        assert(increasing(x)) by {
            assert forall|p: int, q: int| 0 <= p < q < x.len() implies text_less(
                #[trigger] x[p],
                #[trigger] x[q],
            ) by {
                assert(text_less(a[p + 1], a[q + 1]));
            }
        }
        assert(increasing(y)) by {
            assert forall|p: int, q: int| 0 <= p < q < y.len() implies text_less(
                #[trigger] y[p],
                #[trigger] y[q],
            ) by {
                assert(text_less(b[p + 1], b[q + 1]));
            }
        }
        lemma_increasing_unique(x, y);
        assert(a =~= seq![a[0]] + x);
        assert(b =~= seq![b[0]] + y);
    }
}

/// The character of a digit.
pub open spec fn digit(n: nat) -> char {
    if n == 0 {
        '0'
    } else if n == 1 {
        '1'
    } else if n == 2 {
        '2'
    } else if n == 3 {
        '3'
    } else if n == 4 {
        '4'
    } else if n == 5 {
        '5'
    } else if n == 6 {
        '6'
    } else if n == 7 {
        '7'
    } else if n == 8 {
        '8'
    } else {
        '9'
    }
}

/// A number in decimal digits.
pub open spec fn decimal(n: nat) -> Seq<char>
    decreases n,
{
    if n < 10 {
        seq![digit(n)]
    } else {
        decimal(n / 10).push(digit(n % 10))
    }
}

/// A number in decimal digits, after a minus sign where it is negative.
pub open spec fn signed_decimal(n: int) -> Seq<char> {
    if n < 0 {
        seq!['-'] + decimal((-n) as nat)
    } else {
        decimal(n as nat)
    }
}

fn digit_char(n: u64) -> (r: char)
    requires
        n < 10,
    ensures
        r == digit(n as nat),
{
    if n == 0 {
        '0'
    } else if n == 1 {
        '1'
    } else if n == 2 {
        '2'
    } else if n == 3 {
        '3'
    } else if n == 4 {
        '4'
    } else if n == 5 {
        '5'
    } else if n == 6 {
        '6'
    } else if n == 7 {
        '7'
    } else if n == 8 {
        '8'
    } else {
        '9'
    }
}

/// Writes a number in decimal digits.
pub fn decimal_text(n: u64) -> (r: String)
    ensures
        r@ == decimal(n as nat),
    decreases n,
{
    if n < 10 {
        let mut r = String::new();
        r.push(digit_char(n));
        assert(r@ =~= seq![digit(n as nat)]);
        r
    } else {
        let mut r = decimal_text(n / 10);
        r.push(digit_char(n % 10));
        r
    }
}

/// Writes a signed number in decimal digits.
pub fn signed_text(n: i64) -> (r: String)
    ensures
        r@ == signed_decimal(n as int),
{
    if n < 0 {
        let magnitude: u64 = (-(n as i128)) as u64;
        let digits = decimal_text(magnitude);
        proof {
            reveal_strlit("-");
        }
        assert("-"@ =~= seq!['-']);
        cat2("-", digits.as_str())
    } else {
        decimal_text(n as u64)
    }
}

/// The last `n` characters of a text, or all of it.
pub open spec fn tail(s: Seq<char>, n: nat) -> Seq<char> {
    if s.len() <= n {
        s
    } else {
        s.skip(s.len() - n)
    }
}

/// The last `n` characters of a text.
pub fn tail_text(s: &str, n: usize) -> (r: String)
    ensures
        r@ == tail(s@, n as nat),
{
    let c = chars_of(s);
    if c.len() <= n {
        s.to_owned()
    } else {
        assert(c@.subrange(c.len() - n, c.len() as int) =~= c@.skip(c.len() - n));
        part_of(&c, c.len() - n, c.len())
    }
}

/// Whether some character of a text is whitespace.
pub open spec fn has_space(s: Seq<char>) -> bool {
    exists|i: int| 0 <= i < s.len() && is_space(#[trigger] s[i])
}

/// Whether a text holds whitespace.
pub fn any_space(s: &str) -> (r: bool)
    ensures
        r == has_space(s@),
{
    let c = chars_of(s);
    let mut i: usize = 0;
    while i < c.len()
        invariant
            0 <= i <= c.len(),
            c@ == s@,
            forall|j: int| 0 <= j < i ==> !is_space(#[trigger] s@[j]),
        decreases c.len() - i,
    {
        if space(c[i]) {
            assert(is_space(s@[i as int]));
            return true;
        }
        i += 1;
    }
    false
}

/// The value of a decimal digit.
pub open spec fn digit_value(c: char) -> Option<nat> {
    let n = c as u32;
    if 48 <= n <= 57 {
        Some((n - 48) as nat)
    } else {
        None
    }
}

/// The number that a text of decimal digits stands for.
pub open spec fn parse_decimal(s: Seq<char>) -> Option<nat>
    decreases s.len(),
{
    if s.len() == 0 {
        None
    } else if s.len() == 1 {
        digit_value(s[0])
    } else {
        match (parse_decimal(s.drop_last()), digit_value(s.last())) {
            (Some(front), Some(last)) => Some(front * 10 + last),
            _ => None,
        }
    }
}

/// Reads decimal digits; nothing where other characters occur or the number is too large.
pub fn parse_number(s: &str) -> (r: Option<u64>)
    ensures
        match r {
            Some(n) => parse_decimal(s@) == Some(n as nat),
            None => match parse_decimal(s@) {
                Some(n) => n > u64::MAX,
                None => true,
            },
        },
{
    let c = chars_of(s);
    if c.len() == 0 {
        return None;
    }
    let mut value: u64 = 0;
    let mut over = false;
    let mut i: usize = 0;
    while i < c.len()
        invariant
            0 <= i <= c.len(),
            c@ == s@,
            i > 0 ==> match parse_decimal(s@.take(i as int)) {
                Some(n) => if over {
                    n > u64::MAX
                } else {
                    n == value
                },
                None => false,
            },
            i == 0 ==> value == 0 && !over,
        decreases c.len() - i,
    {
        let n: u32 = c[i] as u32;
        let ghost front = s@.take(i as int);
        let ghost next = s@.take(i + 1);
        assert(next.drop_last() =~= front);
        assert(next.last() == c@[i as int]);
        if n < 48 || n > 57 {
            assert(parse_decimal(next) is None);
            proof {
                lemma_parse_prefix(s@, i + 1);
            }
            return None;
        }
        let digit: u64 = (n - 48) as u64;
        if !over {
            match value.checked_mul(10) {
                Some(shifted) => match shifted.checked_add(digit) {
                    Some(sum) => {
                        value = sum;
                    },
                    None => {
                        over = true;
                    },
                },
                None => {
                    over = true;
                },
            }
        }
        i += 1;
    }
    assert(s@.take(i as int) =~= s@);
    if over {
        None
    } else {
        Some(value)
    }
}

proof fn lemma_parse_prefix(s: Seq<char>, i: int)
    requires
        0 < i <= s.len(),
        parse_decimal(s.take(i)) is None,
    ensures
        parse_decimal(s) is None,
    decreases s.len(),
{
    if i < s.len() {
        assert(s.drop_last().take(i) =~= s.take(i));
        lemma_parse_prefix(s.drop_last(), i);
    } else {
        assert(s.take(i) =~= s);
    }
}

/// A text between quotation marks with its special characters escaped, as the `Debug` form of std
/// writes it.
pub uninterp spec fn quoted_text(s: Seq<char>) -> Seq<char>;

/// `format!` of std with the `Debug` form of a text: a text that depends on the text alone.
#[verifier::external_body]
pub(crate) fn quoted(s: &str) -> (r: String)
    ensures
        r@ == quoted_text(s@),
{
    format!("{:?}", s)
}

/// `part` stands in `s` at position `i`.
pub open spec fn stands_at(s: Seq<char>, part: Seq<char>, i: int) -> bool {
    0 <= i && i + part.len() <= s.len() && s.subrange(i, i + part.len()) == part
}

/// `part` stands somewhere in `s`.
pub open spec fn has_part(s: Seq<char>, part: Seq<char>) -> bool {
    exists|i: int| stands_at(s, part, i)
}

fn found_at(s: &Vec<char>, part: &Vec<char>, i: usize) -> (r: bool)
    ensures
        r == stands_at(s@, part@, i as int),
{
    if i > s.len() || part.len() > s.len() - i {
        return false;
    }
    let mut k: usize = 0;
    while k < part.len()
        invariant
            0 <= k <= part.len(),
            i + part.len() <= s.len(),
            forall|j: int| 0 <= j < k ==> part@[j] == s@[i + j],
        decreases part.len() - k,
    {
        if part[k] != s[i + k] {
            assert(s@.subrange(i as int, i + part.len())[k as int] == s@[i + k]);
            return false;
        }
        k += 1;
    }
    assert(s@.subrange(i as int, i + part.len()) =~= part@);
    true
}

/// Whether a text stands somewhere in another.
pub fn contains_text(s: &str, part: &str) -> (r: bool)
    ensures
        r == has_part(s@, part@),
{
    let c = chars_of(s);
    let p = chars_of(part);
    let mut i: usize = 0;
    while i < c.len()
        invariant
            0 <= i <= c.len(),
            c@ == s@,
            p@ == part@,
            forall|j: int| 0 <= j < i ==> !stands_at(s@, part@, j),
        decreases c.len() - i,
    {
        if found_at(&c, &p, i) {
            assert(stands_at(s@, part@, i as int));
            return true;
        }
        i += 1;
    }
    if p.len() == 0 {
        assert(s@.subrange(c.len() as int, c.len() as int) =~= part@);
        assert(stands_at(s@, part@, c.len() as int));
        return true;
    }
    false
}

/// `s` with each occurrence of `part`, found from left to right, replaced by `with`.
pub open spec fn replaced(s: Seq<char>, part: Seq<char>, with: Seq<char>) -> Seq<char>
    decreases s.len(),
{
    if part.len() == 0 || s.len() < part.len() {
        s
    } else if stands_at(s, part, 0) {
        with + replaced(s.skip(part.len() as int), part, with)
    } else {
        seq![s[0]] + replaced(s.skip(1), part, with)
    }
}

/// Replaces each occurrence of a text, which is not empty, by another.
pub fn replace_text(s: &str, part: &str, with: &str) -> (r: String)
    requires
        part@.len() > 0,
    ensures
        r@ == replaced(s@, part@, with@),
{
    let c = chars_of(s);
    let p = chars_of(part);
    let mut r = String::new();
    let mut i: usize = 0;
    assert(c@.skip(0) =~= c@);
    while i < c.len() && p.len() <= c.len() - i
        invariant
            0 <= i <= c.len(),
            c@ == s@,
            p@ == part@,
            p.len() > 0,
            r@ + replaced(s@.skip(i as int), part@, with@) == replaced(s@, part@, with@),
        decreases c.len() - i,
    {
        let ghost rest = s@.skip(i as int);
        assert(stands_at(rest, part@, 0) == stands_at(s@, part@, i as int)) by {
            assert(rest.subrange(0, part@.len() as int) =~= s@.subrange(
                i as int,
                i + part@.len(),
            ));
        }
        let ghost before = r@;
        if found_at(&c, &p, i) {
            r.append(with);
            assert(rest.skip(part@.len() as int) =~= s@.skip(i + part@.len()));
            assert(r@ + replaced(s@.skip(i + part@.len()), part@, with@) =~= before + replaced(
                rest,
                part@,
                with@,
            ));
            i += p.len();
        } else {
            r.push(c[i]);
            assert(rest.skip(1) =~= s@.skip(i + 1));
            assert(r@ + replaced(s@.skip(i + 1), part@, with@) =~= before + replaced(
                rest,
                part@,
                with@,
            ));
            i += 1;
        }
    }
    let end = part_of(&c, i, c.len());
    assert(c@.subrange(i as int, c.len() as int) =~= s@.skip(i as int));
    r.append(end.as_str());
    r
}

/// A text split at a separator that stands between two texts: the pieces of the one and the
/// pieces of the other.
pub proof fn lemma_split_concat(a: Seq<char>, b: Seq<char>, sep: char)
    ensures
        split(a.push(sep) + b, sep) == split(a, sep) + split(b, sep),
    decreases b.len(),
{
    let whole = a.push(sep) + b;
    lemma_split_nonempty(b, sep);
    if b.len() == 0 {
        assert(whole =~= a.push(sep));
        assert(whole.drop_last() =~= a);
        assert(split(whole, sep) =~= split(a, sep) + split(b, sep));
    } else {
        lemma_split_concat(a, b.drop_last(), sep);
        lemma_split_nonempty(b.drop_last(), sep);
        assert(whole.drop_last() =~= a.push(sep) + b.drop_last());
        assert(whole.last() == b.last());
        let front = split(a, sep);
        let back = split(b.drop_last(), sep);
        let both = front + back;
        assert(both.last() == back.last());
        assert(both.drop_last() =~= front + back.drop_last());
        assert(split(whole, sep) =~= split(a, sep) + split(b, sep));
    }
}

/// The characters that are control characters.
pub open spec fn is_control(c: char) -> bool {
    let n = c as u32;
    n <= 0x1f || 0x7f <= n <= 0x9f
}

/// Whether a character is a control character.
pub fn control(c: char) -> (r: bool)
    ensures
        r == is_control(c),
{
    let n: u32 = c as u32;
    n <= 0x1f || (0x7f <= n && n <= 0x9f)
}

/// The first `n` characters of a text, or all of it.
pub open spec fn head(s: Seq<char>, n: nat) -> Seq<char> {
    if s.len() <= n {
        s
    } else {
        s.take(n as int)
    }
}

/// The first `n` characters of a text.
pub fn head_text(s: &str, n: usize) -> (r: String)
    ensures
        r@ == head(s@, n as nat),
{
    let c = chars_of(s);
    if c.len() <= n {
        s.to_owned()
    } else {
        assert(c@.subrange(0, n as int) =~= c@.take(n as int));
        part_of(&c, 0, n)
    }
}

/// A text in lower case, as std changes it.
pub uninterp spec fn lower_text(s: Seq<char>) -> Seq<char>;

/// `str::to_lowercase` of std: a text that depends on the text alone.
#[verifier::external_body]
pub(crate) fn lowercase(s: &str) -> (r: String)
    ensures
        r@ == lower_text(s@),
{
    s.to_lowercase()
}

/// A character, as a lower-case letter where it is an upper-case one of ASCII.
pub open spec fn ascii_lower_char(c: char) -> char {
    if 65 <= c as u32 && c as u32 <= 90 {
        (c as u32 + 32) as char
    } else {
        c
    }
}

/// A text with the upper-case letters of ASCII in lower case.
pub open spec fn ascii_lower(s: Seq<char>) -> Seq<char> {
    s.map_values(|c: char| ascii_lower_char(c))
}

fn lower_char(c: char) -> (r: char)
    ensures
        r == ascii_lower_char(c),
{
    let n: u32 = c as u32;
    if n < 65 || n > 90 {
        return c;
    }
    let low: u8 = (n + 32) as u8;
    low as char
}

/// A text with the upper-case letters of ASCII in lower case.
pub fn ascii_lowercase(s: &str) -> (r: String)
    ensures
        r@ == ascii_lower(s@),
{
    let c = chars_of(s);
    let mut r = String::new();
    let mut i: usize = 0;
    assert(r@ =~= ascii_lower(s@).take(0));
    while i < c.len()
        invariant
            0 <= i <= c.len(),
            c@ == s@,
            r@ == ascii_lower(s@).take(i as int),
        decreases c.len() - i,
    {
        r.push(lower_char(c[i]));
        assert(ascii_lower(s@).take(i + 1) =~= ascii_lower(s@).take(i as int).push(
            ascii_lower(s@)[i as int],
        ));
        i += 1;
    }
    assert(ascii_lower(s@).take(i as int) =~= ascii_lower(s@));
    r
}

/// A text with neither whitespace at its ends nor without characters.
pub open spec fn is_tight(s: Seq<char>) -> bool {
    s.len() > 0 && !is_space(s[0]) && !is_space(s.last())
}

/// A line feed after a text is taken away with the whitespace at its ends.
pub proof fn lemma_trim_line(s: Seq<char>)
    requires
        is_tight(s),
    ensures
        trim(s + "\n"@) == s,
{
    reveal_strlit("\n");
    let line = s + "\n"@;
    assert(line[0] == s[0]);
    assert(line.last() == '\n');
    assert(line.drop_last() =~= s);
    reveal_with_fuel(trim_end, 2);
}

} // verus!
