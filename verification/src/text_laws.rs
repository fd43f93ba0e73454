//! What the operations on texts and paths give, told by their inputs and results.
use vstd::prelude::*;
use crate::paths;
use crate::text;

verus! {

proof fn lemma_trim_start(s: Seq<char>) -> (i: int)
    ensures
        0 <= i <= s.len(),
        text::trim_start(s) == s.skip(i),
        forall|k: int| 0 <= k < i ==> text::is_space(#[trigger] s[k]),
        i < s.len() ==> !text::is_space(s[i]),
    decreases s.len(),
{
    if s.len() > 0 && text::is_space(s[0]) {
        let rest = s.skip(1);
        let j = lemma_trim_start(rest);
        assert(rest.skip(j) =~= s.skip(j + 1));
        assert forall|k: int| 0 <= k < j + 1 implies text::is_space(#[trigger] s[k]) by {
            if k > 0 {
                assert(rest[k - 1] == s[k]);
            }
        }
        if j < rest.len() {
            assert(rest[j] == s[j + 1]);
        }
        j + 1
    } else {
        assert(s.skip(0) =~= s);
        0
    }
}

proof fn lemma_trim_end(s: Seq<char>) -> (j: int)
    ensures
        0 <= j <= s.len(),
        text::trim_end(s) == s.take(j),
        forall|k: int| j <= k < s.len() ==> text::is_space(#[trigger] s[k]),
        j > 0 ==> !text::is_space(s[j - 1]),
    decreases s.len(),
{
    if s.len() > 0 && text::is_space(s.last()) {
        let front = s.drop_last();
        let j = lemma_trim_end(front);
        assert(front.take(j) =~= s.take(j));
        assert forall|k: int| j <= k < s.len() implies text::is_space(#[trigger] s[k]) by {
            if k < front.len() {
                assert(front[k] == s[k]);
            }
        }
        if j > 0 {
            assert(front[j - 1] == s[j - 1]);
        }
        j
    } else {
        assert(s.take(s.len() as int) =~= s);
        s.len() as int
    }
}

/// A trimmed text is what is left of a text once all whitespace before and behind it is gone, and
/// nothing else: it neither starts nor ends with whitespace.
pub proof fn law_trim_drops_space_alone(s: Seq<char>)
    ensures
        exists|i: int, j: int|
            0 <= i <= j <= s.len() && text::trim(s) == #[trigger] s.subrange(i, j) && (forall|k: int|
                0 <= k < i || j <= k < s.len() ==> text::is_space(#[trigger] s[k])),
        text::trim(s).len() > 0 ==> !text::is_space(text::trim(s)[0]) && !text::is_space(text::trim(s).last()),
{
    let i = lemma_trim_start(s);
    let rest = s.skip(i);
    let n = lemma_trim_end(rest);
    assert(rest.take(n) =~= s.subrange(i, i + n));
    assert forall|k: int| 0 <= k < i || i + n <= k < s.len() implies text::is_space(#[trigger] s[k]) by {
        if k >= i {
            assert(rest[k - i] == s[k]);
        }
    }
    assert(text::trim(s) == s.subrange(i, i + n));
    if n > 0 {
        assert(rest[0] == s[i]);
        assert(text::trim(s)[0] == s[i]);
        assert(text::trim(s).last() == rest[n - 1]);
    }
}

/// The pieces of a text hold no separator, and with the separator between them they are the text.
pub proof fn law_split_and_join(s: Seq<char>, sep: char)
    ensures
        text::split(s, sep).len() > 0,
        text::join(text::split(s, sep), seq![sep]) == s,
        forall|i: int| 0 <= i < text::split(s, sep).len() ==> !(#[trigger] text::split(s, sep)[i]).contains(sep),
    decreases s.len(),
{
    if s.len() == 0 {
        assert(text::join(text::split(s, sep), seq![sep]) =~= s);
    } else {
        let front = s.drop_last();
        let before = text::split(front, sep);
        law_split_and_join(front, sep);
        let now = text::split(s, sep);
        if s.last() == sep {
            assert(now.drop_last() =~= before);
            assert(text::join(now, seq![sep]) == text::join(before, seq![sep]) + seq![sep] + Seq::<
                char,
            >::empty());
            assert(text::join(now, seq![sep]) =~= s);
            assert forall|i: int| 0 <= i < now.len() implies !(#[trigger] now[i]).contains(sep) by {
                if i < before.len() {
                    assert(now[i] == before[i]);
                }
            }
        } else {
            let grown = before.last().push(s.last());
            assert(now.last() == grown);
            assert(now.drop_last() =~= before.drop_last());
            text::lemma_join_split(s, sep);
            assert forall|i: int| 0 <= i < now.len() implies !(#[trigger] now[i]).contains(sep) by {
                if i < before.len() - 1 {
                    assert(now[i] == before[i]);
                } else {
                    assert(before[before.len() - 1] == before.last());
                    if grown.contains(sep) {
                        let k = choose|k: int| 0 <= k < grown.len() && grown[k] == sep;
                        if k < before.last().len() {
                            assert(before.last()[k] == sep);
                            assert(before.last().contains(sep));
                        }
                    }
                }
            }
        }
    }
}

pub proof fn lemma_split_piece(base: Seq<char>, name: Seq<char>, sep: char)
    requires
        !name.contains(sep),
    ensures
        text::split(base + seq![sep] + name, sep) == text::split(base, sep).push(name),
    decreases name.len(),
{
    let whole = base + seq![sep] + name;
    if name.len() == 0 {
        assert(whole.drop_last() =~= base);
        assert(whole.last() == sep);
        assert(name =~= Seq::empty());
    } else {
        let front = name.drop_last();
        assert(name.contains(name.last()));
        assert(!front.contains(sep)) by {
            if front.contains(sep) {
                let k = choose|k: int| 0 <= k < front.len() && front[k] == sep;
                assert(name[k] == sep);
            }
        }
        lemma_split_piece(base, front, sep);
        assert(whole.drop_last() =~= base + seq![sep] + front);
        assert(whole.last() == name.last());
        let before = text::split(base, sep).push(front);
        assert(before.drop_last() =~= text::split(base, sep));
        assert(front.push(name.last()) =~= name);
    }
}

proof fn lemma_components_below(base: Seq<char>, name: Seq<char>)
    requires
        !name.contains('/'),
        name.len() > 0,
        name != seq!['.'],
    ensures
        paths::components(base + seq!['/'] + name) == paths::components(base).push(name),
{
    lemma_split_piece(base, name, '/');
    let pieces = text::split(base, '/');
    let keep = |p: Seq<char>| paths::names(p);
    reveal(Seq::filter);
    assert(pieces.push(name).drop_last() =~= pieces);
    assert(pieces.push(name).last() == name);
    assert(pieces.push(name).filter(keep) == pieces.filter(keep).push(name));
}

/// What is named below a directory has that name as its last, lies under the directory, and has it
/// as its parent.
pub proof fn law_names_below_a_directory(base: Seq<char>, name: Seq<char>)
    requires
        base.len() > 0,
        base[0] == '/',
        !name.contains('/'),
        name.len() > 0,
        name != seq!['.'],
        name != seq!['.', '.'],
    ensures
        paths::last_name(base + seq!['/'] + name) == Some(name),
        paths::is_under(base + seq!['/'] + name, base),
        paths::parent(base + seq!['/'] + name) is Some,
        paths::parent(base + seq!['/'] + name)->0 == seq!['/'] + text::join(paths::components(base), seq!['/']),
        paths::components(base + seq!['/'] + name) == paths::components(base).push(name),
{
    lemma_components_below(base, name);
    let whole = base + seq!['/'] + name;
    assert(whole[0] == base[0]);
    assert(paths::components(whole).drop_last() =~= paths::components(base));
    assert(paths::components(base) =~= paths::components(whole).subrange(0, paths::components(base).len() as int));
}

/// A path is put below another with one slash between them; an absolute one stands for itself.
pub proof fn law_joined_paths(base: Seq<char>, path: Seq<char>)
    ensures
        path.len() > 0 && path[0] == '/' ==> paths::joined(base, path) == path,
        !(path.len() > 0 && path[0] == '/') && base.len() == 0 ==> paths::joined(base, path) == path,
        !(path.len() > 0 && path[0] == '/') && base.len() > 0 && base.last() == '/' ==> paths::joined(
            base,
            path,
        ) == base + path,
        !(path.len() > 0 && path[0] == '/') && base.len() > 0 && base.last() != '/' ==> paths::joined(
            base,
            path,
        ) == base + seq!['/'] + path,
{
    assert(Seq::<char>::empty() + path =~= path);
    if base.len() == 0 {
        assert(base + path =~= path);
    }
}

/// A number is read back from its decimal digits.
pub proof fn law_decimal_is_read_back(n: nat)
    ensures
        text::decimal(n).len() > 0,
        text::parse_decimal(text::decimal(n)) == Some(n),
    decreases n,
{
    if n >= 10 {
        law_decimal_is_read_back(n / 10);
        let s = text::decimal(n);
        assert(s.drop_last() =~= text::decimal(n / 10));
        assert(s.last() == text::digit(n % 10));
        assert(text::digit_value(text::digit(n % 10)) == Some(n % 10));
    } else {
        assert(text::digit_value(text::digit(n)) == Some(n));
    }
}

/// A text without carriage returns is its lines with newlines between them, and one more at its end
/// where it ends in one.
pub proof fn law_lines_are_the_text(s: Seq<char>)
    requires
        s.len() > 0,
        !s.contains('\r'),
    ensures
        s.last() != '\n' ==> text::join(text::lines(s), seq!['\n']) == s,
        s.last() == '\n' ==> text::join(text::lines(s), seq!['\n']).push('\n') == s,
{
    law_split_and_join(s, '\n');
    let pieces = text::split(s, '\n');
    lemma_pieces_inside(s, '\n', '\r');
    let ended = pieces.drop_last().map_values(|line: Seq<char>| text::without_return(line));
    assert(ended =~= pieces.drop_last()) by {
        assert forall|i: int| 0 <= i < pieces.len() - 1 implies text::without_return(
            #[trigger] pieces[i],
        ) == pieces[i] by {
            let line = pieces[i];
            if line.len() > 0 && line.last() == '\r' {
                assert(line.contains(line.last()));
            }
        }
    }
    assert(ended.push(pieces.last()) =~= pieces);
    if s.last() == '\n' {
        assert(pieces == text::split(s.drop_last(), '\n').push(Seq::empty()));
        law_split_and_join(s.drop_last(), '\n');
        assert(pieces.drop_last() =~= text::split(s.drop_last(), '\n'));
        assert(s.drop_last().push('\n') =~= s);
    } else {
        let before = text::split(s.drop_last(), '\n');
        assert(pieces.last() == before.last().push(s.last()));
    }
}

proof fn lemma_pieces_inside(s: Seq<char>, sep: char, c: char)
    requires
        !s.contains(c),
    ensures
        forall|i: int| 0 <= i < text::split(s, sep).len() ==> !(#[trigger] text::split(s, sep)[i]).contains(c),
        text::split(s, sep).len() > 0,
    decreases s.len(),
{
    if s.len() > 0 {
        let front = s.drop_last();
        assert(!front.contains(c)) by {
            if front.contains(c) {
                let k = choose|k: int| 0 <= k < front.len() && front[k] == c;
                assert(s[k] == c);
            }
        }
        assert(s.contains(s.last()));
        lemma_pieces_inside(front, sep, c);
        let before = text::split(front, sep);
        let now = text::split(s, sep);
        assert forall|i: int| 0 <= i < now.len() implies !(#[trigger] now[i]).contains(c) by {
            if i < before.len() - 1 {
                assert(now[i] == before[i]);
            } else if s.last() == sep && i == before.len() - 1 {
                assert(now[i] == before[i]);
            } else if s.last() != sep {
                let last = before[before.len() - 1];
                assert(now[i] == last.push(s.last()));
                if now[i].contains(c) {
                    let k = choose|k: int| 0 <= k < now[i].len() && now[i][k] == c;
                    if k < last.len() {
                        assert(last[k] == c);
                        assert(last.contains(c));
                    }
                }
            }
        }
    }
}

/// The first and the last characters of a text, as many as were asked for or all there are.
pub proof fn law_heads_and_tails(s: Seq<char>, n: nat)
    ensures
        s.len() <= n ==> text::head(s, n) == s && text::tail(s, n) == s,
        s.len() > n ==> text::head(s, n) == s.take(n as int) && text::tail(s, n) == s.skip(s.len() - n),
        s.len() > n ==> text::head(s, n).len() == n && text::tail(s, n).len() == n,
{
}

/// Where a text does not occur in another, nothing is replaced.
pub proof fn law_nothing_to_replace(s: Seq<char>, part: Seq<char>, with: Seq<char>)
    requires
        !text::has_part(s, part),
    ensures
        text::replaced(s, part, with) == s,
    decreases s.len(),
{
    if part.len() > 0 && s.len() >= part.len() {
        assert(!text::stands_at(s, part, 0));
        let rest = s.skip(1);
        assert(!text::has_part(rest, part)) by {
            if text::has_part(rest, part) {
                let i = choose|i: int| text::stands_at(rest, part, i);
                assert(rest.subrange(i, i + part.len()) =~= s.subrange(i + 1, i + 1 + part.len()));
                assert(text::stands_at(s, part, i + 1));
            }
        }
        law_nothing_to_replace(rest, part, with);
        assert(seq![s[0]] + rest =~= s);
    }
}

/// The first occurrence of a text is replaced, and what follows it is treated alike.
pub proof fn law_first_occurrence_is_replaced(
    before: Seq<char>,
    part: Seq<char>,
    after: Seq<char>,
    with: Seq<char>,
)
    requires
        part.len() > 0,
        forall|i: int| 0 <= i < before.len() ==> !#[trigger] text::stands_at(before + part + after, part, i),
    ensures
        text::replaced(before + part + after, part, with) == before + with + text::replaced(after, part, with),
    decreases before.len(),
{
    let s = before + part + after;
    if before.len() == 0 {
        assert(s.subrange(0, part.len() as int) =~= part);
        assert(text::stands_at(s, part, 0));
        assert(s.skip(part.len() as int) =~= after);
        assert(before + with + text::replaced(after, part, with) =~= with + text::replaced(after, part, with));
    } else {
        let rest = before.skip(1);
        assert(!text::stands_at(s, part, 0));
        assert(s.skip(1) =~= rest + part + after);
        assert forall|i: int| 0 <= i < rest.len() implies !#[trigger] text::stands_at(
            rest + part + after,
            part,
            i,
        ) by {
            assert(!text::stands_at(s, part, i + 1));
            assert((rest + part + after).subrange(i, i + part.len()) =~= s.subrange(
                i + 1,
                i + 1 + part.len(),
            ));
        }
        law_first_occurrence_is_replaced(rest, part, after, with);
        assert(seq![s[0]] + (rest + with + text::replaced(after, part, with)) =~= before + with
            + text::replaced(after, part, with));
    }
}

} // verus!
