//! What words, durations, patterns, requests and queues come to, told by their inputs and results.
use vstd::prelude::*;
use crate::cli;
use crate::daemon;
use crate::history;
use crate::install;
use crate::json;
use crate::paths;
use crate::project;
use crate::publication;
use crate::service;
use crate::state;
use crate::text;
use crate::text_laws;
use crate::workspace;
use crate::cli::Interval;
use crate::clock::Timestamp;
use crate::daemon::{DaemonError, MethodView};
use crate::install::HealthFact;
use crate::json::Json;
use crate::publication::PublicationView;
use crate::state::ConfigView;
use crate::workspace::{Surroundings, WorkspaceProjectDocumentView, WorkspaceProjectView};

verus! {

proof fn lemma_alias(
    program: Seq<char>,
    word: Seq<char>,
    rest: Seq<Seq<char>>,
    enrolled: bool,
)
    requires
        word.len() > 0,
        word[0] != '-',
    ensures
        cli::alias_of(word) matches Some(pair) ==> cli::preprocessed(seq![program, word] + rest, enrolled)
            == seq![program, pair.0, pair.1] + rest,
        cli::alias_of(word) is None && !cli::is_known(word) && enrolled ==> cli::preprocessed(
            seq![program, word] + rest,
            enrolled,
        ) == seq![program, "peer"@, "sync"@, word] + rest,
        cli::alias_of(word) is None && (cli::is_known(word) || !enrolled) ==> cli::preprocessed(
            seq![program, word] + rest,
            enrolled,
        ) == seq![program, word] + rest,
{
    reveal_strlit("--state-dir");
    reveal_strlit("--state-dir=");
    reveal_strlit("-");
    let args = seq![program, word] + rest;
    assert(args[1] == word);
    assert("--state-dir"@[0] == '-');
    assert(!"--state-dir="@.is_prefix_of(word)) by {
        if "--state-dir="@.is_prefix_of(word) {
            assert("--state-dir="@[0] == word[0]);
        }
    }
    assert(!"-"@.is_prefix_of(word)) by {
        if "-"@.is_prefix_of(word) {
            assert("-"@[0] == word[0]);
        }
    }
    assert(cli::command_position(args, 1) == 1);
    match cli::alias_of(word) {
        Some(pair) => {
            assert(args.take(1) + seq![pair.0, pair.1] + args.skip(2) =~= seq![
                program,
                pair.0,
                pair.1,
            ] + rest);
        },
        None => {
            assert(args.take(1) + seq!["peer"@, "sync"@] + args.skip(1) =~= seq![
                program,
                "peer"@,
                "sync"@,
                word,
            ] + rest);
        },
    }
}

proof fn lemma_alias_words()
    ensures
        forall|w: Seq<char>|
            #![trigger cli::alias_of(w)]
            w == "login"@ || w == "init"@ || w == "join"@ || w == "subscribe"@ || w == "fork"@ || w
                == "unsubscribe"@ || w == "status"@ || w == "sync"@ || w == "publish"@ || w
                == "conflicts"@ || w == "recover"@ || w == "devices"@ ==> w.len() > 0 && w[0] != '-',
        cli::alias_of("login"@) == Some(("auth"@, "login"@)),
        cli::alias_of("init"@) == Some(("project"@, "init"@)),
        cli::alias_of("join"@) == Some(("project"@, "join"@)),
        cli::alias_of("subscribe"@) == Some(("project"@, "join"@)),
        cli::alias_of("fork"@) == Some(("project"@, "fork"@)),
        cli::alias_of("unsubscribe"@) == Some(("project"@, "leave"@)),
        cli::alias_of("status"@) == Some(("project"@, "status"@)),
        cli::alias_of("sync"@) == Some(("project"@, "sync"@)),
        cli::alias_of("publish"@) == Some(("project"@, "publish"@)),
        cli::alias_of("conflicts"@) == Some(("project"@, "conflicts"@)),
        cli::alias_of("recover"@) == Some(("project"@, "recover"@)),
        cli::alias_of("devices"@) == Some(("device"@, "list"@)),
{
    reveal_strlit("login");
    reveal_strlit("init");
    reveal_strlit("join");
    reveal_strlit("subscribe");
    reveal_strlit("fork");
    reveal_strlit("unsubscribe");
    reveal_strlit("status");
    reveal_strlit("sync");
    reveal_strlit("publish");
    reveal_strlit("conflicts");
    reveal_strlit("recover");
    reveal_strlit("devices");
    assert("login"@[0] == 'l' && "init"@[0] == 'i' && "join"@[0] == 'j' && "fork"@[0] == 'f');
    assert("subscribe"@[0] == 's' && "status"@[0] == 's' && "sync"@[0] == 's');
    assert("subscribe"@[1] == 'u' && "status"@[1] == 't' && "sync"@[1] == 'y');
    assert("unsubscribe"@[0] == 'u' && "publish"@[0] == 'p' && "conflicts"@[0] == 'c');
    assert("recover"@[0] == 'r' && "devices"@[0] == 'd');
}

/// Each short command stands for its full one, whatever follows it.
pub proof fn law_short_commands(program: Seq<char>, rest: Seq<Seq<char>>, enrolled: bool)
    ensures
        ({
            let means = |word: Seq<char>, group: Seq<char>, verb: Seq<char>|
                cli::preprocessed(seq![program, word] + rest, enrolled) == seq![program, group, verb]
                    + rest;
            &&& means("login"@, "auth"@, "login"@)
            &&& means("init"@, "project"@, "init"@)
            &&& means("join"@, "project"@, "join"@)
            &&& means("subscribe"@, "project"@, "join"@)
            &&& means("fork"@, "project"@, "fork"@)
            &&& means("unsubscribe"@, "project"@, "leave"@)
            &&& means("status"@, "project"@, "status"@)
            &&& means("sync"@, "project"@, "sync"@)
            &&& means("publish"@, "project"@, "publish"@)
            &&& means("conflicts"@, "project"@, "conflicts"@)
            &&& means("recover"@, "project"@, "recover"@)
            &&& means("devices"@, "device"@, "list"@)
        }),
{
    lemma_alias_words();
    lemma_alias(program, "login"@, rest, enrolled);
    lemma_alias(program, "init"@, rest, enrolled);
    lemma_alias(program, "join"@, rest, enrolled);
    lemma_alias(program, "subscribe"@, rest, enrolled);
    lemma_alias(program, "fork"@, rest, enrolled);
    lemma_alias(program, "unsubscribe"@, rest, enrolled);
    lemma_alias(program, "status"@, rest, enrolled);
    lemma_alias(program, "sync"@, rest, enrolled);
    lemma_alias(program, "publish"@, rest, enrolled);
    lemma_alias(program, "conflicts"@, rest, enrolled);
    lemma_alias(program, "recover"@, rest, enrolled);
    lemma_alias(program, "devices"@, rest, enrolled);
}

proof fn lemma_decimal_digits(n: nat)
    ensures
        text::decimal(n).len() > 0,
        forall|i: int| 0 <= i < text::decimal(n).len() ==> '0' <= #[trigger] text::decimal(n)[i] <= '9',
    decreases n,
{
    if n >= 10 {
        lemma_decimal_digits(n / 10);
    }
}

/// A count of milliseconds, seconds or minutes is as long as it says, and a bare count is one of
/// seconds; minutes beyond what can be held are refused.
pub proof fn law_durations(n: nat)
    requires
        n <= u64::MAX,
    ensures
        cli::duration_of(text::decimal(n)) == Some(Interval { seconds: n as u64, millis: 0 }),
        cli::duration_of(text::decimal(n).push('s')) == Some(Interval { seconds: n as u64, millis: 0 }),
        n * 60 <= u64::MAX ==> cli::duration_of(text::decimal(n).push('m')) == Some(
            Interval { seconds: (n * 60) as u64, millis: 0 },
        ),
        n * 60 > u64::MAX ==> cli::duration_of(text::decimal(n).push('m')) is None,
        cli::duration_of(text::decimal(n).push('m').push('s')) matches Some(d) && d.seconds * 1000 + d.millis
            == n && d.millis < 1000,
{
    reveal_strlit("ms");
    reveal_strlit("s");
    reveal_strlit("m");
    lemma_decimal_digits(n);
    text_laws::law_decimal_is_read_back(n);
    let d = text::decimal(n);
    assert(cli::parsed_count(d) == Some(n));
    assert(d.last() == d[d.len() - 1]);
    lemma_no_suffix(d, "ms"@);
    lemma_no_suffix(d, "s"@);
    lemma_no_suffix(d, "m"@);
    let s = d.push('s');
    assert(!"ms"@.is_suffix_of(s)) by {
        if "ms"@.is_suffix_of(s) {
            assert(s.subrange(s.len() - 2, s.len() as int)[0] == "ms"@[0]);
        }
    }
    lemma_suffix(d, "s"@);
    assert(d + "s"@ =~= s);
    let m = d.push('m');
    lemma_no_suffix(m, "ms"@);
    lemma_no_suffix(m, "s"@);
    lemma_suffix(d, "m"@);
    assert(d + "m"@ =~= m);
    let ms = m.push('s');
    lemma_suffix(d, "ms"@);
    assert(d + "ms"@ =~= ms);
}

proof fn lemma_suffix(s: Seq<char>, suffix: Seq<char>)
    ensures
        text::before_suffix(s + suffix, suffix) == Some(s),
{
    let whole = s + suffix;
    assert(whole.subrange(whole.len() - suffix.len(), whole.len() as int) =~= suffix);
    assert(whole.take(whole.len() - suffix.len()) =~= s);
}

proof fn lemma_no_suffix(s: Seq<char>, suffix: Seq<char>)
    requires
        s.len() > 0,
        suffix.len() > 0,
        s.last() != suffix.last(),
    ensures
        text::before_suffix(s, suffix) is None,
{
    if suffix.is_suffix_of(s) {
        assert(s.subrange(s.len() - suffix.len(), s.len() as int).last() == suffix.last());
    }
}

proof fn lemma_one_piece(s: Seq<char>, sep: char)
    requires
        !s.contains(sep),
    ensures
        text::split(s, sep) == seq![s],
    decreases s.len(),
{
    if s.len() > 0 {
        let front = s.drop_last();
        assert(s.contains(s.last()));
        assert(!front.contains(sep)) by {
            if front.contains(sep) {
                let k = choose|k: int| 0 <= k < front.len() && front[k] == sep;
                assert(s[k] == sep);
            }
        }
        lemma_one_piece(front, sep);
        assert(seq![front].drop_last() =~= Seq::<Seq<char>>::empty());
        assert(front.push(s.last()) =~= s);
        assert(Seq::<Seq<char>>::empty().push(s) =~= seq![s]);
    } else {
        assert(s =~= Seq::empty());
        assert(text::split(s, sep) =~= seq![s]);
    }
}

/// A pattern that was put into a file is one of its lines; what the file held stays in front of it,
/// and putting it in again changes nothing.
pub proof fn law_patterns_are_put_in_once(contents: Seq<char>, pattern: Seq<char>)
    requires
        pattern.len() > 0,
        !pattern.contains('\n'),
        text::trim(pattern) == pattern,
    ensures
        cli::has_pattern(cli::with_pattern(contents, pattern), pattern),
        contents.is_prefix_of(cli::with_pattern(contents, pattern)),
        cli::with_pattern(cli::with_pattern(contents, pattern), pattern) == cli::with_pattern(contents, pattern),
        cli::has_pattern(contents, pattern) ==> cli::with_pattern(contents, pattern) == contents,
{
    let result = cli::with_pattern(contents, pattern);
    reveal_strlit("\n");
    if !cli::has_pattern(contents, pattern) {
        let base = if contents.len() > 0 && contents.last() != '\n' {
            contents.push('\n')
        } else {
            contents
        };
        assert(result == base + pattern + "\n"@);
        assert(contents =~= result.subrange(0, contents.len() as int));
        let before = if base.len() == 0 {
            assert(base + pattern =~= pattern);
            lemma_one_piece(pattern, '\n');
            Seq::<Seq<char>>::empty()
        } else {
            let front = base.drop_last();
            assert(base + pattern =~= front + seq!['\n'] + pattern);
            text_laws::lemma_split_piece(front, pattern, '\n');
            text::split(front, '\n')
        };
        assert(text::split(base + pattern, '\n') =~= before.push(pattern));
        assert(result.drop_last() =~= base + pattern);
        assert(result.last() == '\n');
        let pieces = text::split(result, '\n');
        assert(pieces == before.push(pattern).push(Seq::empty()));
        assert(pieces.drop_last() =~= before.push(pattern));
        assert(pieces.last().len() == 0);
        text_laws::law_trim_drops_space_alone(pattern);
        assert(text::is_space('\r'));
        assert(text::without_return(pattern) == pattern);
        let all = text::lines(result);
        assert(all[before.len() as int] == pattern);
        assert(text::trim(all[before.len() as int]) == pattern);
    } else {
        assert(contents =~= contents.subrange(0, contents.len() as int));
    }
}

/// What is told of a project's queue: how many of its publications wait, when the oldest of them was
/// made, when one was last tried and when one is next to be tried.
pub proof fn law_queue_summary(list: Seq<PublicationView>, project_id: Seq<char>, n: int)
    requires
        0 <= n <= list.len() <= usize::MAX,
    ensures
        ({
            let told = daemon::summary(list, project_id, n);
            let mine = |p: PublicationView| publication::is_pending(p) && p.project_id == project_id;
            &&& told.depth == list.take(n).filter(mine).len()
            &&& told.depth <= n
            &&& told.oldest is Some <==> told.depth > 0
            &&& forall|i: int|
                #![trigger list[i]]
                0 <= i < n && publication::is_pending(list[i]) && list[i].project_id == project_id ==> {
                    &&& told.oldest is Some
                    &&& !text::text_less(list[i].created_at, told.oldest->0)
                    &&& list[i].last_attempt_at matches Some(t) ==> told.last_attempt is Some
                        && !text::text_less(told.last_attempt->0, t)
                    &&& list[i].next_attempt_at matches Some(t) ==> told.next_attempt is Some
                        && !text::text_less(t, told.next_attempt->0)
                }
            &&& told.oldest is Some ==> exists|i: int|
                #![trigger list[i]]
                0 <= i < n && publication::is_pending(list[i]) && list[i].project_id == project_id && Some(
                    list[i].created_at,
                ) == told.oldest
            &&& told.last_attempt is Some ==> exists|i: int|
                #![trigger list[i]]
                0 <= i < n && publication::is_pending(list[i]) && list[i].project_id == project_id
                    && list[i].last_attempt_at == told.last_attempt
            &&& told.next_attempt is Some ==> exists|i: int|
                #![trigger list[i]]
                0 <= i < n && publication::is_pending(list[i]) && list[i].project_id == project_id
                    && list[i].next_attempt_at == told.next_attempt
        }),
    decreases n,
{
    reveal(Seq::filter);
    let mine = |p: PublicationView| publication::is_pending(p) && p.project_id == project_id;
    if n > 0 {
        law_queue_summary(list, project_id, n - 1);
        assert(list.take(n).drop_last() =~= list.take(n - 1));
        assert(list.take(n).last() == list[n - 1]);
        let before = daemon::summary(list, project_id, n - 1);
        let told = daemon::summary(list, project_id, n);
        let p = list[n - 1];
        assert(list.take(n).filter(mine) == if mine(p) {
            list.take(n - 1).filter(mine).push(p)
        } else {
            list.take(n - 1).filter(mine)
        });
        if mine(p) {
            lemma_earlier(before.oldest, Some(p.created_at));
            lemma_earlier(before.next_attempt, p.next_attempt_at);
            lemma_later(before.last_attempt, p.last_attempt_at);
            assert forall|i: int|
                #![trigger list[i]]
                0 <= i < n && publication::is_pending(list[i]) && list[i].project_id == project_id implies {
                &&& told.oldest is Some
                &&& !text::text_less(list[i].created_at, told.oldest->0)
                &&& list[i].last_attempt_at matches Some(t) ==> told.last_attempt is Some
                    && !text::text_less(told.last_attempt->0, t)
                &&& list[i].next_attempt_at matches Some(t) ==> told.next_attempt is Some
                    && !text::text_less(t, told.next_attempt->0)
            } by {
                if i < n - 1 {
                    lemma_not_less(list[i].created_at, before.oldest->0, told.oldest->0);
                    if list[i].last_attempt_at is Some {
                        lemma_not_less(
                            told.last_attempt->0,
                            before.last_attempt->0,
                            list[i].last_attempt_at->0,
                        );
                    }
                    if list[i].next_attempt_at is Some {
                        lemma_not_less(
                            list[i].next_attempt_at->0,
                            before.next_attempt->0,
                            told.next_attempt->0,
                        );
                    }
                }
            }
        }
    } else {
        assert(list.take(0) =~= Seq::empty());
    }
}

proof fn lemma_not_less(a: Seq<char>, b: Seq<char>, c: Seq<char>)
    requires
        !text::text_less(a, b),
        !text::text_less(b, c),
    ensures
        !text::text_less(a, c),
{
    if text::text_less(a, c) {
        text::lemma_text_less_total(a, b);
        text::lemma_text_less_total(b, c);
        if a == b {
        } else if b == c {
        } else {
            text::lemma_text_less_transitive(c, b, a);
            text::lemma_text_less_asymmetric(a, c);
        }
    }
}

proof fn lemma_earlier(a: Option<Seq<char>>, b: Option<Seq<char>>)
    ensures
        daemon::earlier(a, b) == a || daemon::earlier(a, b) == b,
        a is Some || b is Some ==> daemon::earlier(a, b) is Some,
        a is Some ==> !text::text_less(a->0, daemon::earlier(a, b)->0),
        b is Some ==> !text::text_less(b->0, daemon::earlier(a, b)->0),
{
    if a is Some {
        text::lemma_text_less_irreflexive(a->0);
    }
    if b is Some {
        text::lemma_text_less_irreflexive(b->0);
    }
    if a is Some && b is Some && text::text_less(b->0, a->0) {
        text::lemma_text_less_asymmetric(b->0, a->0);
    }
}

proof fn lemma_later(a: Option<Seq<char>>, b: Option<Seq<char>>)
    ensures
        daemon::later(a, b) == a || daemon::later(a, b) == b,
        a is Some || b is Some ==> daemon::later(a, b) is Some,
        a is Some ==> !text::text_less(daemon::later(a, b)->0, a->0),
        b is Some ==> !text::text_less(daemon::later(a, b)->0, b->0),
{
    if a is Some {
        text::lemma_text_less_irreflexive(a->0);
    }
    if b is Some {
        text::lemma_text_less_irreflexive(b->0);
    }
    if a is Some && b is Some {
        if text::text_less(a->0, b->0) {
            text::lemma_text_less_asymmetric(a->0, b->0);
        }
        if text::text_less(b->0, a->0) {
            text::lemma_text_less_asymmetric(b->0, a->0);
        }
    }
}

/// The catalog generation never goes back, and moves only to the one that was given.
pub proof fn law_generation_never_goes_back(current: u64, given: Option<u64>)
    ensures
        service::generation_after(current, given) >= current,
        given matches Some(n) ==> service::generation_after(current, given) >= n,
        service::generation_after(current, given) == current || Some(service::generation_after(current, given)) == given,
{
}

/// Of a checkout, the branch that was left is told where there was one, it is another than the new
/// one and the previous commit is a real one.
pub proof fn law_branch_that_was_left(active: Option<Seq<char>>, new: Seq<char>, oid: Seq<char>)
    ensures
        service::left_branch(active, new, oid) is Some ==> service::left_branch(active, new, oid) == active && active
            != Some(new) && (exists|i: int| 0 <= i < oid.len() && #[trigger] oid[i] != '0'),
        (forall|i: int| 0 <= i < oid.len() ==> #[trigger] oid[i] == '0') ==> service::left_branch(
            active,
            new,
            oid,
        ) is None,
        (active matches Some(b) && b != new) && (exists|i: int|
            0 <= i < oid.len() && #[trigger] oid[i] != '0') ==> service::left_branch(active, new, oid)
            == active,
{
}

/// A process is taken for a stale one where its number can be held and is not this one's.
pub proof fn law_stale_process(pid: Option<nat>, own_pid: u32)
    requires
        own_pid <= i32::MAX,
    ensures
        daemon::stale_process(pid, own_pid) matches Ok(n) ==> pid == Some(n as nat) && n != own_pid,
        pid == Some(own_pid as nat) ==> daemon::stale_process(pid, own_pid) == Err::<i32, _>(
            DaemonError::OwnProcess,
        ),
        pid is None || pid->0 > i32::MAX ==> daemon::stale_process(pid, own_pid) == Err::<i32, _>(
            DaemonError::NoPid,
        ),
        (pid matches Some(n) && n <= i32::MAX && n != own_pid) ==> daemon::stale_process(pid, own_pid) is Ok,
{
}

/// Publications are tried newest first: each one that waits and is due, or is forced, once, and no
/// other.
pub proof fn law_order_of_attempts(list: Seq<PublicationView>, force: bool, now: Timestamp)
    ensures
        exists|order: Seq<int>| #[trigger]
            is_attempt_order(list, force, now, order) && daemon::attempt_order(list, force, now)
                == order.map_values(|i: int| list[i].publication_id),
{
    let order = history::newest_first(
        daemon::creation_times(list),
        daemon::attempted(list, force, now),
        list.len() as int,
    );
    history::law_newest_first(daemon::creation_times(list), daemon::attempted(list, force, now), list.len() as int);
    assert forall|i: int| #[trigger] order.contains(i) <==> (0 <= i < list.len() && publication::is_pending(
        list[i],
    ) && (force || publication::is_due(list[i], now))) by {
        if 0 <= i < list.len() {
            assert(daemon::attempted(list, force, now)[i] == (publication::is_pending(list[i]) && (force || publication::is_due(
                list[i],
                now,
            ))));
        }
    }
    assert forall|i: int, j: int|
        #![trigger order[i], order[j]]
        0 <= i < j < order.len() implies !text::text_less(
        list[order[i]].created_at,
        list[order[j]].created_at,
    ) by {
        assert(order.contains(order[i]) && order.contains(order[j]));
        assert(daemon::creation_times(list)[order[i]] == list[order[i]].created_at);
        assert(daemon::creation_times(list)[order[j]] == list[order[j]].created_at);
        assert(history::newer_or_earlier(daemon::creation_times(list), order[i], order[j]));
        text::lemma_text_less_irreflexive(list[order[j]].created_at);
        if text::text_less(list[order[j]].created_at, list[order[i]].created_at) {
            text::lemma_text_less_asymmetric(list[order[j]].created_at, list[order[i]].created_at);
        }
    }
    assert(is_attempt_order(list, force, now, order));
}

/// An order of the publications that are to be tried: none twice, and none before a newer one.
pub open spec fn is_attempt_order(
    list: Seq<PublicationView>,
    force: bool,
    now: Timestamp,
    order: Seq<int>,
) -> bool {
    &&& order.no_duplicates()
    &&& forall|i: int| #[trigger]
        order.contains(i) <==> (0 <= i < list.len() && publication::is_pending(list[i]) && (force || publication::is_due(
            list[i],
            now,
        )))
    &&& forall|i: int, j: int|
        #![trigger order[i], order[j]]
        0 <= i < j < order.len() ==> !text::text_less(list[order[i]].created_at, list[order[j]].created_at)
}

/// A request is taken for the method that it names, with the texts that it gives under the fields
/// of that method.
pub proof fn law_requests_are_told_apart(request: Json, id: Seq<char>, b: Seq<char>, oid: Seq<char>)
    ensures
        ({
            let requested_by_name = |method: Seq<char>| json::text_field(request, "method"@) == Some(method);
            let gives = |name: Seq<char>, value: Seq<char>|
                value.len() > 0 && json::text_field(request, name) == Some(value);
            &&& requested_by_name("ping"@) ==> daemon::parsed_method(request) == Some(MethodView::Ping)
            &&& requested_by_name("reload"@) ==> daemon::parsed_method(request) == Some(MethodView::Reload)
            &&& requested_by_name("status"@) ==> daemon::parsed_method(request) == Some(
                MethodView::Status(json::text_field(request, "project_id"@)),
            )
            &&& requested_by_name("acquireAccess"@) && gives("project_id"@, id) ==> daemon::parsed_method(request)
                == Some(MethodView::Acquire(id))
            &&& requested_by_name("accessState"@) && gives("project_id"@, id) ==> daemon::parsed_method(request)
                == Some(MethodView::Access(id))
            &&& requested_by_name("releaseAccess"@) && gives("lease_id"@, id) ==> daemon::parsed_method(request)
                == Some(MethodView::Release(id))
            &&& requested_by_name("sync"@) && gives("project_id"@, id) ==> daemon::parsed_method(request) == Some(
                MethodView::Sync(id),
            )
            &&& requested_by_name("publish"@) && gives("project_id"@, id) ==> daemon::parsed_method(request) == Some(
                MethodView::Publish(id, json::text_field(request, "branch"@)),
            )
            &&& requested_by_name("reportCommit"@) && gives("project_id"@, id) && gives("branch"@, b) && gives(
                "commit_oid"@,
                oid,
            ) ==> daemon::parsed_method(request) == Some(MethodView::Commit(id, b, oid))
            &&& requested_by_name("reportCheckout"@) && gives("project_id"@, id) && gives("new_branch"@, b)
                && gives("previous_oid"@, oid) ==> daemon::parsed_method(request) == Some(
                MethodView::Checkout(id, b, oid),
            )
        }),
{
    reveal_strlit("ping");
    reveal_strlit("registerProject");
    reveal_strlit("reload");
    reveal_strlit("status");
    reveal_strlit("acquireAccess");
    reveal_strlit("accessState");
    reveal_strlit("releaseAccess");
    reveal_strlit("sync");
    reveal_strlit("publish");
    reveal_strlit("reportCommit");
    reveal_strlit("reportCheckout");
    assert("acquireAccess"@[1] == 'c' && "releaseAccess"@[1] == 'e');
    assert("ping"@[0] == 'p' && "sync"@[0] == 's');
    assert("reload"@[0] == 'r' && "status"@[0] == 's');
    assert("ping"@.len() == 4 && "registerProject"@.len() == 15 && "reload"@.len() == 6);
    assert("status"@.len() == 6 && "acquireAccess"@.len() == 13 && "accessState"@.len() == 11);
    assert("releaseAccess"@.len() == 13 && "sync"@.len() == 4 && "publish"@.len() == 7);
    assert("reportCommit"@.len() == 12 && "reportCheckout"@.len() == 14);
    let name = daemon::method_name(request);
    assert(name == "ping"@ ==> daemon::parsed_method(request) == Some(MethodView::Ping));
    assert(name == "reload"@ ==> daemon::parsed_method(request) == Some(MethodView::Reload));
    assert(name == "status"@ ==> daemon::parsed_method(request) == Some(
        MethodView::Status(json::text_field(request, "project_id"@)),
    ));
    assert(name == "acquireAccess"@ ==> daemon::parsed_method(request) == Some(
        MethodView::Acquire(daemon::filled_field(request, "project_id"@)->0),
    ));
    assert(name == "accessState"@ ==> daemon::parsed_method(request) == Some(
        MethodView::Access(daemon::filled_field(request, "project_id"@)->0),
    ));
    assert(name == "releaseAccess"@ ==> daemon::parsed_method(request) == Some(
        MethodView::Release(daemon::filled_field(request, "lease_id"@)->0),
    ));
    assert(name == "sync"@ ==> daemon::parsed_method(request) == Some(
        MethodView::Sync(daemon::filled_field(request, "project_id"@)->0),
    ));
    assert(name == "publish"@ ==> daemon::parsed_method(request) == Some(
        MethodView::Publish(
            daemon::filled_field(request, "project_id"@)->0,
            json::text_field(request, "branch"@),
        ),
    ));
    assert(name == "reportCommit"@ ==> daemon::parsed_method(request) == Some(
        MethodView::Commit(
            daemon::filled_field(request, "project_id"@)->0,
            daemon::filled_field(request, "branch"@)->0,
            daemon::filled_field(request, "commit_oid"@)->0,
        ),
    ));
    assert(name == "reportCheckout"@ ==> daemon::parsed_method(request) == Some(
        MethodView::Checkout(
            daemon::filled_field(request, "project_id"@)->0,
            daemon::filled_field(request, "new_branch"@)->0,
            daemon::filled_field(request, "previous_oid"@)->0,
        ),
    ));
}

/// A finding on the installation is sound where it points to the executable that runs, there is one
/// build, the daemon is of it, and nothing obsolete is left.
pub proof fn law_sound_installation(current: Seq<char>, fingerprint: Seq<char>, fact: HealthFact)
    ensures
        match fact {
            HealthFact::Launcher(path) => install::is_healthy(current, fingerprint, fact) <==> paths::same_place(
                path@,
                current,
            ),
            HealthFact::Process(path) => install::is_healthy(current, fingerprint, fact) <==> paths::same_place(
                path@,
                current,
            ),
            HealthFact::Candidate(path) => install::is_healthy(current, fingerprint, fact) <==> paths::same_place(
                path@,
                current,
            ),
            HealthFact::Builds(n) => install::is_healthy(current, fingerprint, fact) <==> n == 1,
            HealthFact::Daemon(id) => install::is_healthy(current, fingerprint, fact) <==> id is Some
                && (id->0)@ == fingerprint,
            HealthFact::PrefixManifest(there) => install::is_healthy(current, fingerprint, fact) <==> !there,
            HealthFact::NodeManifest(there) => install::is_healthy(current, fingerprint, fact) <==> !there,
        },
{
}

/// The token that was stored for a service is used before the configured one, which is used for the
/// configured service alone.
pub proof fn law_token_that_is_used(
    origin: Seq<char>,
    stored: Option<Seq<char>>,
    config: ConfigView,
)
    ensures
        stored is Some ==> project::token_for(origin, stored, config) == stored,
        stored is None && config.server == Some(origin) ==> project::token_for(origin, stored, config)
            == config.token,
        stored is None && config.server != Some(origin) ==> project::token_for(origin, stored, config) is None,
{
}

/// An address without its closing slashes differs from it by slashes alone, and has none at its end.
pub proof fn law_closing_slashes(s: Seq<char>)
    ensures
        project::without_slashes(s).len() <= s.len(),
        project::without_slashes(s) == s.take(project::without_slashes(s).len() as int),
        forall|i: int| project::without_slashes(s).len() <= i < s.len() ==> #[trigger] s[i] == '/',
        project::without_slashes(s).len() > 0 ==> project::without_slashes(s).last() != '/',
    decreases s.len(),
{
    if s.len() > 0 && s.last() == '/' {
        let front = s.drop_last();
        law_closing_slashes(front);
        let n = project::without_slashes(front).len() as int;
        assert(front.take(n) =~= s.take(n));
        assert forall|i: int| n <= i < s.len() implies #[trigger] s[i] == '/' by {
            if i < front.len() {
                assert(front[i] == s[i]);
            }
        }
    } else {
        assert(s.take(s.len() as int) =~= s);
    }
}

/// A project of a workspace is one that is subscribed to and lies below the workspace's root, under
/// the identity that was declared for it, and is named once.
pub proof fn law_workspace_entries(
    s: Surroundings,
    entry: WorkspaceProjectDocumentView,
    place: Result<Seq<char>, Seq<char>>,
    before: Seq<WorkspaceProjectView>,
)
    ensures
        ({
            let got = workspace::resolved_entry(s, entry, place, before);
            &&& got matches Ok(p) ==> {
                &&& !paths::is_absolute(entry.path)
                &&& place == Ok::<Seq<char>, Seq<char>>(p.local_path)
                &&& paths::components(s.root).is_prefix_of(paths::components(p.local_path))
                &&& paths::components(s.root) != paths::components(p.local_path)
                &&& entry.project_id matches Some(id) ==> id == p.project_id
                &&& workspace::checkout_position(s.paths, p.local_path, 0) is Some
                &&& p.project_id == s.ids[workspace::checkout_position(s.paths, p.local_path, 0)->0]
                &&& !workspace::has_place(before, p.local_path)
                &&& !workspace::has_project(before, p.project_id)
            }
            &&& got is Err && !paths::is_absolute(entry.path) && place is Ok && workspace::lies_below(
                s.root,
                place->Ok_0,
            ) && workspace::checkout_position(s.paths, place->Ok_0, 0) is Some && entry.project_id is None
                ==> workspace::has_place(before, place->Ok_0) || workspace::has_project(
                before,
                s.ids[workspace::checkout_position(s.paths, place->Ok_0, 0)->0],
            )
        }),
{
}

/// The files of the state each have a name of their own below its root, and the socket may be
/// placed elsewhere.
pub proof fn law_state_files(root: Seq<char>, socket: Option<Seq<char>>)
    requires
        root.len() > 0,
        root.last() != '/',
    ensures
        ({
            let files = state::paths_below(root, socket);
            &&& files.root == root
            &&& files.config == root + "/config.json"@
            &&& files.credentials == root + "/credentials.json"@
            &&& files.keys == root + "/keys"@
            &&& files.catalog == root + "/catalog.json"@
            &&& files.transactions == root + "/transactions"@
            &&& files.named_lease_receipts == root + "/named-leases"@
            &&& files.daemon_lock == root + "/daemon.lock"@
            &&& socket is None ==> files.socket == root + "/daemon.sock"@
            &&& socket matches Some(path) ==> files.socket == path
        }),
{
    reveal_strlit("config.json");
    reveal_strlit("credentials.json");
    reveal_strlit("keys");
    reveal_strlit("catalog.json");
    reveal_strlit("transactions");
    reveal_strlit("named-leases");
    reveal_strlit("daemon.lock");
    reveal_strlit("daemon.sock");
    reveal_strlit("/config.json");
    reveal_strlit("/credentials.json");
    reveal_strlit("/keys");
    reveal_strlit("/catalog.json");
    reveal_strlit("/transactions");
    reveal_strlit("/named-leases");
    reveal_strlit("/daemon.lock");
    reveal_strlit("/daemon.sock");
    text_laws::law_joined_paths(root, "config.json"@);
    text_laws::law_joined_paths(root, "credentials.json"@);
    text_laws::law_joined_paths(root, "keys"@);
    text_laws::law_joined_paths(root, "catalog.json"@);
    text_laws::law_joined_paths(root, "transactions"@);
    text_laws::law_joined_paths(root, "named-leases"@);
    text_laws::law_joined_paths(root, "daemon.lock"@);
    text_laws::law_joined_paths(root, "daemon.sock"@);
    assert(seq!['/'] + "config.json"@ =~= "/config.json"@);
    assert(seq!['/'] + "credentials.json"@ =~= "/credentials.json"@);
    assert(seq!['/'] + "keys"@ =~= "/keys"@);
    assert(seq!['/'] + "catalog.json"@ =~= "/catalog.json"@);
    assert(seq!['/'] + "transactions"@ =~= "/transactions"@);
    assert(seq!['/'] + "named-leases"@ =~= "/named-leases"@);
    assert(seq!['/'] + "daemon.lock"@ =~= "/daemon.lock"@);
    assert(seq!['/'] + "daemon.sock"@ =~= "/daemon.sock"@);
    let files = state::paths_below(root, socket);
    assert(files.config =~= root + "/config.json"@);
    assert(files.credentials =~= root + "/credentials.json"@);
    assert(files.keys =~= root + "/keys"@);
    assert(files.catalog =~= root + "/catalog.json"@);
    assert(files.transactions =~= root + "/transactions"@);
    assert(files.named_lease_receipts =~= root + "/named-leases"@);
    assert(files.daemon_lock =~= root + "/daemon.lock"@);
    assert(socket is None ==> files.socket =~= root + "/daemon.sock"@);
}

} // verus!
