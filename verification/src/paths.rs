//! Unix paths as texts.
use vstd::prelude::*;
use crate::text;
use crate::text::{cat2, cat3, chars_of, is_blank, join_text, same_text, split_text, text_before};

verus! {

/// A path that starts at the root.
pub open spec fn is_absolute(path: Seq<char>) -> bool {
    path.len() > 0 && path[0] == '/'
}

/// `path` below `base`; an absolute `path` stands for itself.
pub open spec fn joined(base: Seq<char>, path: Seq<char>) -> Seq<char> {
    if is_absolute(path) {
        path
    } else if base.len() > 0 && base.last() != '/' {
        base + seq!['/'] + path
    } else {
        base + path
    }
}

/// Whether a path starts at the root.
pub fn absolute_path(path: &str) -> (r: bool)
    ensures
        r == is_absolute(path@),
{
    let c = chars_of(path);
    c.len() > 0 && c[0] == '/'
}

/// `path` below `base`.
pub fn join_path(base: &str, path: &str) -> (r: String)
    ensures
        r@ == joined(base@, path@),
{
    let c = chars_of(base);
    if absolute_path(path) {
        path.to_owned()
    } else if c.len() > 0 && c[c.len() - 1] != '/' {
        proof {
            reveal_strlit("/");
        }
        assert("/"@ =~= seq!['/']);
        cat3(base, "/", path)
    } else {
        cat2(base, path)
    }
}

/// A piece of a path that names something: neither empty nor a dot.
pub open spec fn names(piece: Seq<char>) -> bool {
    piece.len() > 0 && piece != seq!['.']
}

/// The names along a path, without empty pieces and single dots.
pub open spec fn components(path: Seq<char>) -> Seq<Seq<char>> {
    text::split(path, '/').filter(|p: Seq<char>| names(p))
}

/// Whether a relative path starts with a dot as its first piece.
pub open spec fn starts_here(path: Seq<char>) -> bool {
    text::split(path, '/')[0] == seq!['.']
}

/// A form of the path that two paths share exactly when they have the same components.
pub open spec fn path_key(path: Seq<char>) -> Seq<char> {
    let rest = text::join(components(path), seq!['/']);
    if is_absolute(path) {
        seq!['/'] + rest
    } else if starts_here(path) {
        seq!['.', '/'] + rest
    } else {
        rest
    }
}

/// Two paths with the same components.
pub open spec fn same_place(a: Seq<char>, b: Seq<char>) -> bool {
    path_key(a) == path_key(b)
}

/// The names along a path.
pub fn components_of(path: &str) -> (r: Vec<String>)
    ensures
        text::views(r@) == components(path@),
{
    let pieces = split_text(path, '/');
    let mut r: Vec<String> = Vec::new();
    let mut i: usize = 0;
    let ghost all = text::views(pieces@);
    assert(all.take(0) =~= Seq::empty());
    assert(all.take(0).filter(|p: Seq<char>| names(p)) =~= Seq::empty()) by {
        reveal(Seq::filter);
    }
    proof {
        reveal_strlit(".");
    }
    assert("."@ =~= seq!['.']);
    while i < pieces.len()
        invariant
            0 <= i <= pieces.len(),
            all == text::views(pieces@),
            "."@ == seq!['.'],
            text::views(r@) == all.take(i as int).filter(|p: Seq<char>| names(p)),
        decreases pieces.len() - i,
    {
        let ghost next = all.take(i + 1);
        assert(next.drop_last() =~= all.take(i as int));
        assert(next.last() == pieces@[i as int]@);
        reveal(Seq::filter);
        let ghost before = r@;
        if !is_blank(pieces[i].as_str()) && !same_text(pieces[i].as_str(), ".") {
            r.push(pieces[i].clone());
            assert(text::views(r@) =~= text::views(before).push(pieces@[i as int]@));
        }
        i += 1;
    }
    assert(all.take(i as int) =~= all);
    r
}

/// The form of a path that stands for its components.
pub fn key_of(path: &str) -> (r: String)
    ensures
        r@ == path_key(path@),
{
    let names_along = components_of(path);
    proof {
        reveal_strlit("/");
        reveal_strlit(".");
        reveal_strlit("./");
    }
    assert("/"@ =~= seq!['/']);
    assert("."@ =~= seq!['.']);
    assert("./"@ =~= seq!['.', '/']);
    let rest = join_text(&names_along, "/");
    if absolute_path(path) {
        cat2("/", rest.as_str())
    } else {
        let pieces = split_text(path, '/');
        proof {
            crate::text::lemma_split_nonempty(path@, '/');
        }
        assert(text::views(pieces@)[0] == pieces@[0]@);
        if same_text(pieces[0].as_str(), ".") {
            cat2("./", rest.as_str())
        } else {
            rest
        }
    }
}

/// Whether two paths have the same components.
pub fn same_path(a: &str, b: &str) -> (r: bool)
    ensures
        r == same_place(a@, b@),
{
    let x = key_of(a);
    let y = key_of(b);
    same_text(x.as_str(), y.as_str())
}

/// Whether `list` holds a path with the components of `path`.
pub open spec fn holds_path(list: Seq<Seq<char>>, path: Seq<char>) -> bool {
    exists|i: int| 0 <= i < list.len() && same_place(#[trigger] list[i], path)
}

/// Whether a list holds a path with the same components.
pub fn has_path(list: &Vec<String>, path: &str) -> (r: bool)
    ensures
        r == holds_path(text::views(list@), path@),
{
    let mut i: usize = 0;
    while i < list.len()
        invariant
            0 <= i <= list.len(),
            forall|j: int| 0 <= j < i ==> !same_place(#[trigger] text::views(list@)[j], path@),
        decreases list.len() - i,
    {
        assert(text::views(list@)[i as int] == list@[i as int]@);
        if same_path(list[i].as_str(), path) {
            return true;
        }
        i += 1;
    }
    false
}

/// The last name along a path, unless the path ends by going up.
pub open spec fn last_name(path: Seq<char>) -> Option<Seq<char>> {
    let along = components(path);
    if along.len() == 0 || along.last() == seq!['.', '.'] {
        None
    } else {
        Some(along.last())
    }
}

/// The file name of a path.
pub fn file_name(path: &str) -> (r: Option<String>)
    ensures
        text::opt_view(r) == last_name(path@),
{
    let along = components_of(path);
    proof {
        reveal_strlit("..");
    }
    assert(".."@ =~= seq!['.', '.']);
    if along.len() == 0 {
        assert(text::views(along@).len() == 0);
        return None;
    }
    assert(text::views(along@).last() == along@[along.len() - 1]@);
    if same_text(along[along.len() - 1].as_str(), "..") {
        None
    } else {
        Some(along[along.len() - 1].clone())
    }
}

/// The text after the last dot of a file name, unless that dot stands first.
pub open spec fn extension(name: Seq<char>) -> Option<Seq<char>> {
    let pieces = text::split(name, '.');
    if pieces.len() < 2 || (pieces.len() == 2 && pieces[0].len() == 0) {
        None
    } else {
        Some(pieces.last())
    }
}

/// Whether the file name of a path ends in the given extension.
pub fn has_extension(path: &str, wanted: &str) -> (r: bool)
    ensures
        r == (last_name(path@) matches Some(name) && extension(name) == Some(wanted@)),
{
    match file_name(path) {
        Some(name) => {
            let pieces = split_text(name.as_str(), '.');
            let ghost all = text::views(pieces@);
            if pieces.len() < 2 {
                assert(all.len() < 2);
                return false;
            }
            assert(all[0] == pieces@[0]@);
            assert(all.last() == pieces@[pieces.len() - 1]@);
            if pieces.len() == 2 && is_blank(pieces[0].as_str()) {
                return false;
            }
            same_text(pieces[pieces.len() - 1].as_str(), wanted)
        },
        None => false,
    }
}

/// The path that holds what a path names; none for the root.
pub open spec fn parent(path: Seq<char>) -> Option<Seq<char>> {
    let along = components(path);
    if along.len() == 0 {
        if !is_absolute(path) && starts_here(path) {
            Some(Seq::empty())
        } else {
            None
        }
    } else {
        let rest = text::join(along.drop_last(), seq!['/']);
        if is_absolute(path) {
            Some(seq!['/'] + rest)
        } else if starts_here(path) {
            Some(seq!['.', '/'] + rest)
        } else {
            Some(rest)
        }
    }
}

/// The path that holds what a path names.
pub fn parent_of(path: &str) -> (r: Option<String>)
    ensures
        text::opt_view(r) == parent(path@),
{
    proof {
        reveal_strlit("/");
        reveal_strlit(".");
        reveal_strlit("./");
        crate::text::lemma_split_nonempty(path@, '/');
    }
    assert("/"@ =~= seq!['/']);
    assert("."@ =~= seq!['.']);
    assert("./"@ =~= seq!['.', '/']);
    let absolute = absolute_path(path);
    let pieces = split_text(path, '/');
    assert(text::views(pieces@)[0] == pieces@[0]@);
    let here = same_text(pieces[0].as_str(), ".");
    let mut along = components_of(path);
    if along.len() == 0 {
        if !absolute && here {
            let none = String::new();
            assert(none@ =~= Seq::empty());
            return Some(none);
        }
        return None;
    }
    let ghost all = text::views(along@);
    let _ = along.pop();
    assert(text::views(along@) =~= all.drop_last());
    let rest = join_text(&along, "/");
    if absolute {
        Some(cat2("/", rest.as_str()))
    } else if here {
        Some(cat2("./", rest.as_str()))
    } else {
        Some(rest)
    }
}

/// Whether the components of a path start with those of another.
pub open spec fn is_under(path: Seq<char>, base: Seq<char>) -> bool {
    &&& is_absolute(path) == is_absolute(base)
    &&& !is_absolute(base) ==> starts_here(path) == starts_here(base)
    &&& components(base).is_prefix_of(components(path))
}

/// Whether the components of a path start with those of another.
pub fn starts_with_path(path: &str, base: &str) -> (r: bool)
    ensures
        r == is_under(path@, base@),
{
    let absolute = absolute_path(base);
    if absolute_path(path) != absolute {
        return false;
    }
    proof {
        reveal_strlit(".");
        crate::text::lemma_split_nonempty(path@, '/');
        crate::text::lemma_split_nonempty(base@, '/');
    }
    assert("."@ =~= seq!['.']);
    if !absolute {
        let mine = split_text(path, '/');
        let other = split_text(base, '/');
        assert(text::views(mine@)[0] == mine@[0]@);
        assert(text::views(other@)[0] == other@[0]@);
        if same_text(mine[0].as_str(), ".") != same_text(other[0].as_str(), ".") {
            return false;
        }
    }
    let along = components_of(path);
    let start = components_of(base);
    let ghost all = components(path@);
    let ghost first = components(base@);
    assert(all.len() == along.len() && first.len() == start.len());
    if start.len() > along.len() {
        return false;
    }
    let mut i: usize = 0;
    while i < start.len()
        invariant
            0 <= i <= start.len() <= along.len(),
            all == text::views(along@),
            first == text::views(start@),
            first == components(base@),
            all == components(path@),
            forall|j: int| 0 <= j < i ==> first[j] == #[trigger] all[j],
        decreases start.len() - i,
    {
        assert(all[i as int] == along@[i as int]@);
        assert(first[i as int] == start@[i as int]@);
        if !same_text(along[i].as_str(), start[i].as_str()) {
            assert(first[i as int] != all.subrange(0, first.len() as int)[i as int]);
            return false;
        }
        i += 1;
    }
    assert(first =~= all.subrange(0, first.len() as int));
    true
}

/// The steps along a path: its names, after the root or the current directory where it starts
/// there.
pub open spec fn steps(path: Seq<char>) -> Seq<Seq<char>> {
    if is_absolute(path) {
        seq![seq!['/']] + components(path)
    } else if starts_here(path) {
        seq![seq!['.']] + components(path)
    } else {
        components(path)
    }
}

/// What kind of step comes first: the root, the current directory, the one above, then names.
pub open spec fn step_rank(step: Seq<char>) -> int {
    if step == seq!['/'] {
        0
    } else if step == seq!['.'] {
        1
    } else if step == seq!['.', '.'] {
        2
    } else {
        3
    }
}

/// `a` comes before `b` among steps.
pub open spec fn step_less(a: Seq<char>, b: Seq<char>) -> bool {
    step_rank(a) < step_rank(b) || (step_rank(a) == step_rank(b) && text::text_less(a, b))
}

/// `a` comes before `b` step by step, a prefix coming first.
pub open spec fn steps_less(a: Seq<Seq<char>>, b: Seq<Seq<char>>) -> bool
    decreases b.len(),
{
    if b.len() == 0 {
        false
    } else if a.len() == 0 {
        true
    } else {
        step_less(a[0], b[0]) || (a[0] == b[0] && steps_less(a.skip(1), b.skip(1)))
    }
}

/// `a` comes before `b` in the order of paths.
pub open spec fn path_less(a: Seq<char>, b: Seq<char>) -> bool {
    steps_less(steps(a), steps(b))
}

proof fn lemma_step_order(a: Seq<char>, b: Seq<char>, c: Seq<char>)
    ensures
        !step_less(a, a),
        step_less(a, b) || a == b || step_less(b, a),
        step_less(a, b) && step_less(b, c) ==> step_less(a, c),
{
    text::lemma_text_less_irreflexive(a);
    text::lemma_text_less_total(a, b);
    if text::text_less(a, b) && text::text_less(b, c) {
        text::lemma_text_less_transitive(a, b, c);
    }
}

proof fn lemma_steps_total(a: Seq<Seq<char>>, b: Seq<Seq<char>>)
    ensures
        steps_less(a, b) || a == b || steps_less(b, a),
    decreases a.len(),
{
    if a.len() > 0 && b.len() > 0 {
        lemma_step_order(a[0], b[0], b[0]);
        if a[0] == b[0] {
            lemma_steps_total(a.skip(1), b.skip(1));
            if a.skip(1) == b.skip(1) {
                assert(a =~= seq![a[0]] + a.skip(1));
                assert(b =~= seq![b[0]] + b.skip(1));
            }
        }
    } else if a.len() == 0 && b.len() == 0 {
        assert(a =~= b);
    }
}

proof fn lemma_steps_transitive(a: Seq<Seq<char>>, b: Seq<Seq<char>>, c: Seq<Seq<char>>)
    requires
        steps_less(a, b),
        steps_less(b, c),
    ensures
        steps_less(a, c),
    decreases c.len(),
{
    if a.len() > 0 {
        lemma_step_order(a[0], b[0], c[0]);
        if a[0] == b[0] && b[0] == c[0] {
            lemma_steps_transitive(a.skip(1), b.skip(1), c.skip(1));
        }
    }
}

proof fn lemma_steps_irreflexive(a: Seq<Seq<char>>)
    ensures
        !steps_less(a, a),
    decreases a.len(),
{
    if a.len() > 0 {
        lemma_step_order(a[0], a[0], a[0]);
        lemma_steps_irreflexive(a.skip(1));
    }
}

proof fn lemma_component_is_a_name(path: Seq<char>, i: int)
    requires
        0 <= i < components(path).len(),
    ensures
        components(path)[i] != seq!['/'],
        components(path)[i] != seq!['.'],
{
    let pieces = text::split(path, '/');
    let kept = |p: Seq<char>| names(p);
    pieces.lemma_filter_contains_rev(kept, components(path)[i]);
    pieces.lemma_filter_pred(kept, i);
    let k = choose|k: int| 0 <= k < pieces.len() && pieces[k] == components(path)[i];
    text::lemma_pieces_lack_separator(path, '/', k);
    assert(seq!['/'].contains('/')) by {
        assert(seq!['/'][0] == '/');
    }
}

/// Paths with the same steps are in the same place.
proof fn lemma_same_steps(a: Seq<char>, b: Seq<char>)
    requires
        steps(a) == steps(b),
    ensures
        same_place(a, b),
{
    if components(a).len() > 0 {
        lemma_component_is_a_name(a, 0);
    }
    if components(b).len() > 0 {
        lemma_component_is_a_name(b, 0);
    }
    assert(seq!['/'] != seq!['.']) by {
        assert(seq!['/'][0] != seq!['.'][0]);
    }
    let rooted_a = is_absolute(a) || starts_here(a);
    let rooted_b = is_absolute(b) || starts_here(b);
    if rooted_a {
        assert(steps(a)[0] == if is_absolute(a) {
            seq!['/']
        } else {
            seq!['.']
        });
        assert(steps(a).skip(1) =~= components(a));
    }
    if rooted_b {
        assert(steps(b)[0] == if is_absolute(b) {
            seq!['/']
        } else {
            seq!['.']
        });
        assert(steps(b).skip(1) =~= components(b));
    }
}

/// The steps along a path.
fn steps_of(path: &str) -> (r: Vec<String>)
    ensures
        text::views(r@) == steps(path@),
{
    proof {
        reveal_strlit("/");
        reveal_strlit(".");
        text::lemma_split_nonempty(path@, '/');
    }
    assert("/"@ =~= seq!['/']);
    assert("."@ =~= seq!['.']);
    let mut r = components_of(path);
    let ghost along = text::views(r@);
    let pieces = split_text(path, '/');
    assert(text::views(pieces@)[0] == pieces@[0]@);
    if absolute_path(path) {
        r.insert(0, "/".to_owned());
        assert(text::views(r@) =~= seq![seq!['/']] + along);
    } else if same_text(pieces[0].as_str(), ".") {
        r.insert(0, ".".to_owned());
        assert(text::views(r@) =~= seq![seq!['.']] + along);
    }
    r
}

fn rank_of(step: &str) -> (r: u8)
    ensures
        r == step_rank(step@),
{
    proof {
        reveal_strlit("/");
        reveal_strlit(".");
        reveal_strlit("..");
    }
    assert("/"@ =~= seq!['/']);
    assert("."@ =~= seq!['.']);
    assert(".."@ =~= seq!['.', '.']);
    if same_text(step, "/") {
        0
    } else if same_text(step, ".") {
        1
    } else if same_text(step, "..") {
        2
    } else {
        3
    }
}

fn step_before(a: &str, b: &str) -> (r: bool)
    ensures
        r == step_less(a@, b@),
{
    let x: u8 = rank_of(a);
    let y: u8 = rank_of(b);
    x < y || (x == y && text_before(a, b))
}

/// Whether a path comes before another.
pub fn path_before(a: &str, b: &str) -> (r: bool)
    ensures
        r == path_less(a@, b@),
{
    let x = steps_of(a);
    let y = steps_of(b);
    let ghost p = text::views(x@);
    let ghost q = text::views(y@);
    let mut i: usize = 0;
    assert(p.skip(0) =~= p);
    assert(q.skip(0) =~= q);
    while i < x.len() && i < y.len() && same_text(x[i].as_str(), y[i].as_str())
        invariant
            0 <= i <= x.len(),
            i <= y.len(),
            p == text::views(x@),
            q == text::views(y@),
            steps_less(p, q) == steps_less(p.skip(i as int), q.skip(i as int)),
        decreases x.len() - i,
    {
        assert(p[i as int] == q[i as int]);
        proof {
            lemma_step_order(p[i as int], p[i as int], p[i as int]);
        }
        assert(p.skip(i as int).skip(1) =~= p.skip(i + 1));
        assert(q.skip(i as int).skip(1) =~= q.skip(i + 1));
        i += 1;
    }
    if i >= y.len() {
        false
    } else if i >= x.len() {
        true
    } else {
        assert(p[i as int] == x@[i as int]@);
        assert(q[i as int] == y@[i as int]@);
        step_before(x[i].as_str(), y[i].as_str())
    }
}

/// Strictly increasing in the order of paths, so without repetitions.
pub open spec fn paths_increase(list: Seq<Seq<char>>) -> bool {
    forall|i: int, j: int| 0 <= i < j < list.len() ==> path_less(#[trigger] list[i], #[trigger] list[j])
}

/// A path of a list that no path before it in the list repeats.
#[verifier::opaque]
pub open spec fn is_first_of_path(list: Seq<Seq<char>>, path: Seq<char>) -> bool {
    exists|k: int|
        0 <= k < list.len() && #[trigger] list[k] == path && forall|j: int|
            0 <= j < k ==> steps(#[trigger] list[j]) != steps(path)
}

/// `set` is what an ordered set of paths holds after the paths of `list` were put into it, one
/// after the other.
pub open spec fn is_path_set(set: Seq<Seq<char>>, list: Seq<Seq<char>>) -> bool {
    &&& paths_increase(set)
    &&& forall|i: int| 0 <= i < set.len() ==> is_first_of_path(list, #[trigger] set[i])
    &&& forall|k: int| 0 <= k < list.len() ==> holds_steps(set, #[trigger] list[k])
}

/// Whether a list holds a path with the steps of `path`.
pub open spec fn holds_steps(list: Seq<Seq<char>>, path: Seq<char>) -> bool {
    exists|i: int| 0 <= i < list.len() && steps(#[trigger] list[i]) == steps(path)
}

/// The paths of a list in order, each once.
pub fn ordered_paths(list: &Vec<String>) -> (r: Vec<String>)
    ensures
        is_path_set(text::views(r@), text::views(list@)),
        forall|k: int| 0 <= k < list.len() ==> holds_path(text::views(r@), (#[trigger] list@[k])@),
{
    let ghost all = text::views(list@);
    let mut r: Vec<String> = Vec::new();
    let mut i: usize = 0;
    while i < list.len()
        invariant
            0 <= i <= list.len(),
            all == text::views(list@),
            is_path_set(text::views(r@), all.take(i as int)),
        decreases list.len() - i,
    {
        insert_path(&mut r, list[i].as_str(), Ghost(all.take(i as int)));
        assert(all.take(i as int).push(list@[i as int]@) =~= all.take(i + 1));
        i += 1;
    }
    assert(all.take(i as int) =~= all);
    proof {
        assert forall|k: int| 0 <= k < list.len() implies holds_path(
            text::views(r@),
            (#[trigger] list@[k])@,
        ) by {
            assert(all[k] == list@[k]@);
            let set = text::views(r@);
            let m = choose|m: int| 0 <= m < set.len() && steps(#[trigger] set[m]) == steps(all[k]);
            lemma_same_steps(set[m], all[k]);
        }
    }
    r
}

/// Puts a path into an ordered set of paths.
fn insert_path(set: &mut Vec<String>, path: &str, Ghost(list): Ghost<Seq<Seq<char>>>)
    requires
        is_path_set(text::views(old(set)@), list),
    ensures
        is_path_set(text::views(final(set)@), list.push(path@)),
{
    let ghost before = text::views(set@);
    let mut i: usize = 0;
    while i < set.len() && path_before(set[i].as_str(), path)
        invariant
            0 <= i <= set.len(),
            before == text::views(set@),
            forall|j: int| 0 <= j < i ==> path_less(#[trigger] before[j], path@),
        decreases set.len() - i,
    {
        assert(before[i as int] == set@[i as int]@);
        i += 1;
    }
    if i < set.len() && !path_before(path, set[i].as_str()) {
        proof {
            assert(before[i as int] == set@[i as int]@);
            lemma_steps_total(steps(before[i as int]), steps(path@));
            lemma_set_stays(before, list, path@, i as int);
        }
        return;
    }
    proof {
        if i < set.len() {
            assert(before[i as int] == set@[i as int]@);
        }
        lemma_set_grows(before, list, path@, i as int);
    }
    let ghost held = set@;
    let copy = path.to_owned();
    set.insert(i, copy);
    assert(set@ == held.insert(i as int, copy));
    assert(text::views(set@) =~= before.insert(i as int, path@));
}

proof fn lemma_firsts_stay(set: Seq<Seq<char>>, list: Seq<Seq<char>>, path: Seq<char>)
    requires
        forall|i: int| 0 <= i < set.len() ==> is_first_of_path(list, #[trigger] set[i]),
    ensures
        forall|i: int| 0 <= i < set.len() ==> is_first_of_path(list.push(path), #[trigger] set[i]),
{
    let longer = list.push(path);
    reveal(is_first_of_path);
    assert forall|m: int| 0 <= m < set.len() implies is_first_of_path(longer, #[trigger] set[m]) by {
        assert(is_first_of_path(list, set[m]));
        let k = choose|k: int|
            0 <= k < list.len() && #[trigger] list[k] == set[m] && forall|j: int|
                0 <= j < k ==> steps(#[trigger] list[j]) != steps(set[m]);
        assert(longer[k] == set[m]);
        assert forall|j: int| 0 <= j < k implies steps(#[trigger] longer[j]) != steps(set[m]) by {
            assert(longer[j] == list[j]);
        }
    }
}

proof fn lemma_set_stays(set: Seq<Seq<char>>, list: Seq<Seq<char>>, path: Seq<char>, i: int)
    requires
        is_path_set(set, list),
        0 <= i < set.len(),
        steps(set[i]) == steps(path),
    ensures
        is_path_set(set, list.push(path)),
{
    let longer = list.push(path);
    lemma_firsts_stay(set, list, path);
    assert forall|k: int| 0 <= k < longer.len() implies holds_steps(set, #[trigger] longer[k]) by {
        if k < list.len() {
            assert(longer[k] == list[k]);
        }
    }
}

proof fn lemma_set_grows(set: Seq<Seq<char>>, list: Seq<Seq<char>>, path: Seq<char>, i: int)
    requires
        is_path_set(set, list),
        0 <= i <= set.len(),
        forall|j: int| 0 <= j < i ==> path_less(#[trigger] set[j], path),
        i < set.len() ==> path_less(path, set[i]),
    ensures
        is_path_set(set.insert(i, path), list.push(path)),
{
    let longer = list.push(path);
    let after = set.insert(i, path);
    lemma_inserted(set, path, i);
    lemma_first_again(set, list, path, i);
    lemma_firsts_stay(set, list, path);
    lemma_steps_held(set, list, path, i);
    assert forall|m: int| 0 <= m < after.len() implies is_first_of_path(
        longer,
        #[trigger] after[m],
    ) by {
        if m < i {
            assert(after[m] == set[m]);
        } else if m > i {
            assert(after[m] == set[m - 1]);
        }
    }
}

proof fn lemma_steps_held(set: Seq<Seq<char>>, list: Seq<Seq<char>>, path: Seq<char>, i: int)
    requires
        0 <= i <= set.len(),
        forall|k: int| 0 <= k < list.len() ==> holds_steps(set, #[trigger] list[k]),
    ensures
        forall|k: int|
            0 <= k <= list.len() ==> holds_steps(set.insert(i, path), #[trigger] list.push(path)[k]),
{
    let longer = list.push(path);
    let after = set.insert(i, path);
    assert forall|k: int| 0 <= k < longer.len() implies holds_steps(after, #[trigger] longer[k]) by {
        if k < list.len() {
            assert(longer[k] == list[k]);
            assert(holds_steps(set, list[k]));
            let m = choose|m: int| 0 <= m < set.len() && steps(#[trigger] set[m]) == steps(list[k]);
            if m < i {
                assert(after[m] == set[m]);
            } else {
                assert(after[m + 1] == set[m]);
            }
        } else {
            assert(after[i] == path);
        }
    }
}

proof fn lemma_inserted(before: Seq<Seq<char>>, path: Seq<char>, i: int)
    requires
        0 <= i <= before.len(),
        paths_increase(before),
        forall|j: int| 0 <= j < i ==> path_less(#[trigger] before[j], path),
        i < before.len() ==> path_less(path, before[i]),
    ensures
        paths_increase(before.insert(i, path)),
        forall|j: int| i <= j < before.len() ==> path_less(path, #[trigger] before[j]),
{
    let after = before.insert(i, path);
    assert forall|j: int| i <= j < before.len() implies path_less(path, #[trigger] before[j]) by {
        if i < j {
            assert(path_less(before[i], before[j]));
            lemma_steps_transitive(steps(path), steps(before[i]), steps(before[j]));
        }
    }
    assert forall|a: int, b: int| 0 <= a < b < after.len() implies path_less(
        #[trigger] after[a],
        #[trigger] after[b],
    ) by {
        let x = if a < i {
            a
        } else {
            a - 1
        };
        let y = if b < i {
            b
        } else {
            b - 1
        };
        if a != i {
            assert(after[a] == before[x]);
        }
        if b != i {
            assert(after[b] == before[y]);
        }
    }
}

proof fn lemma_first_again(before: Seq<Seq<char>>, list: Seq<Seq<char>>, path: Seq<char>, i: int)
    requires
        0 <= i <= before.len(),
        forall|j: int| 0 <= j < i ==> path_less(#[trigger] before[j], path),
        forall|j: int| i <= j < before.len() ==> path_less(path, #[trigger] before[j]),
        forall|k: int| 0 <= k < list.len() ==> holds_steps(before, #[trigger] list[k]),
    ensures
        is_first_of_path(list.push(path), path),
{
    let longer = list.push(path);
    reveal(is_first_of_path);
    lemma_steps_irreflexive(steps(path));
    assert forall|j: int| 0 <= j < list.len() implies steps(#[trigger] longer[j]) != steps(path) by {
        assert(longer[j] == list[j]);
        let m = choose|m: int|
            0 <= m < before.len() && steps(#[trigger] before[m]) == steps(list[j]);
        assert(path_less(before[m], path) || path_less(path, before[m]));
    }
    assert(longer[list.len() as int] == path);
}

} // verus!
