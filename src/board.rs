use vstd::prelude::*;
use crate::clock::{clock_text, format_time, formatted_time, parsed_clock, TimeParseError};
use crate::text::lemma_decimal_shape;

verus! {

/// A physical stop of the transit provider.
#[derive(Clone, Debug)]
pub struct Stop {
    pub name: String,
    pub id: usize,
}

/// One upcoming arrival as the provider reports it.
#[derive(Clone, Debug)]
pub struct EtaInfo {
    pub station_id: String,
    pub arrival_time: String,
    pub stop_description: String,
}

/// The arrivals of one fetch, in document order.
#[derive(Clone, Debug)]
pub struct TrainInfo {
    pub eta: Vec<EtaInfo>,
}

pub open spec fn views(v: Seq<String>) -> Seq<Seq<char>> {
    v.map_values(|s: String| s@)
}

/// Display times separated by single spaces.
pub open spec fn join_times(ts: Seq<Seq<char>>) -> Seq<char>
    decreases ts.len(),
{
    if ts.len() == 0 {
        seq![]
    } else if ts.len() == 1 {
        ts[0]
    } else {
        join_times(ts.drop_last()) + seq![' '] + ts.last()
    }
}

/// The block shown for a stop with no arrivals.
pub open spec fn no_trains_text(name: Seq<char>) -> Seq<char> {
    name + "\n\n--\nNo trains scheduled"@
}

/// The block shown for a stop with arrivals: name, direction label,
/// separator, and the times.
pub open spec fn board_text(name: Seq<char>, direction: Seq<char>, times: Seq<Seq<char>>) -> Seq<
    char,
> {
    name + seq!['\n'] + direction + "\n--\n"@ + join_times(times) + seq!['\n']
}

/// Every arrival time of the records can be read.
pub open spec fn all_times_readable(etas: Seq<EtaInfo>) -> bool {
    forall|i: int| 0 <= i < etas.len() ==> (#[trigger] formatted_time(etas[i].arrival_time@)) is Some
}

/// The display forms of the arrival times, in record order.
pub open spec fn display_times(etas: Seq<EtaInfo>) -> Seq<Seq<char>> {
    Seq::new(etas.len(), |i: int| formatted_time(etas[i].arrival_time@)->Some_0)
}

/// `k` is the first record whose arrival time cannot be read.
pub open spec fn first_unreadable(etas: Seq<EtaInfo>, k: int) -> bool {
    &&& 0 <= k < etas.len()
    &&& formatted_time(etas[k].arrival_time@) is None
    &&& forall|j: int| 0 <= j < k ==> (#[trigger] formatted_time(etas[j].arrival_time@)) is Some
}

/// The block for a stop's arrivals, or `None` where some arrival time
/// cannot be read.
pub open spec fn rendered_text(etas: Seq<EtaInfo>, name: Seq<char>) -> Option<Seq<char>> {
    if etas.len() == 0 {
        Some(no_trains_text(name))
    } else if all_times_readable(etas) {
        Some(board_text(name, etas[0].stop_description@, display_times(etas)))
    } else {
        None
    }
}

/// Number of spaces in a text.
pub open spec fn space_count(s: Seq<char>) -> nat
    decreases s.len(),
{
    if s.len() == 0 {
        0
    } else {
        space_count(s.drop_last()) + if s.last() == ' ' { 1nat } else { 0nat }
    }
}

pub open spec fn is_token(t: Seq<char>) -> bool {
    t.len() > 0 && forall|i: int| 0 <= i < t.len() ==> t[i] != ' '
}

proof fn lemma_space_count_concat(a: Seq<char>, b: Seq<char>)
    ensures
        space_count(a + b) == space_count(a) + space_count(b),
    decreases b.len(),
{
    if b.len() == 0 {
        assert(a + b =~= a);
    } else {
        assert((a + b).drop_last() =~= a + b.drop_last());
        lemma_space_count_concat(a, b.drop_last());
    }
}

proof fn lemma_token_has_no_space(t: Seq<char>)
    requires
        forall|i: int| 0 <= i < t.len() ==> t[i] != ' ',
    ensures
        space_count(t) == 0,
    decreases t.len(),
{
    if t.len() > 0 {
        lemma_token_has_no_space(t.drop_last());
    }
}

proof fn lemma_join_separators(ts: Seq<Seq<char>>)
    requires
        ts.len() > 0,
        forall|i: int| 0 <= i < ts.len() ==> is_token(#[trigger] ts[i]),
    ensures
        space_count(join_times(ts)) + 1 == ts.len(),
    decreases ts.len(),
{
    if ts.len() == 1 {
        lemma_token_has_no_space(ts[0]);
    } else {
        let init = ts.drop_last();
        assert forall|i: int| 0 <= i < init.len() implies is_token(#[trigger] init[i]) by {
            assert(init[i] == ts[i]);
        }
        lemma_join_separators(init);
        assert(is_token(ts[ts.len() - 1]));
        lemma_token_has_no_space(ts.last());
        lemma_space_count_concat(join_times(init), seq![' ']);
        lemma_space_count_concat(join_times(init) + seq![' '], ts.last());
        assert(seq![' '].drop_last() =~= Seq::<char>::empty());
        assert(space_count(Seq::<char>::empty()) == 0);
        assert(space_count(seq![' ']) == 1);
        assert(join_times(ts) == join_times(init) + seq![' '] + ts.last());
    }
}

/// The times line of a rendered block holds exactly one token per arrival
/// record: each record's display time, non-empty and without spaces, in
/// record order, with one space between neighbours and none elsewhere.
pub proof fn lemma_times_line_tokens(etas: Seq<EtaInfo>)
    requires
        etas.len() > 0,
        all_times_readable(etas),
    ensures
        display_times(etas).len() == etas.len(),
        forall|i: int|
            0 <= i < etas.len() ==> is_token(#[trigger] display_times(etas)[i])
                && display_times(etas)[i] == formatted_time(etas[i].arrival_time@)->Some_0,
        space_count(join_times(display_times(etas))) + 1 == etas.len(),
{
    let ts = display_times(etas);
    assert forall|i: int| 0 <= i < etas.len() implies is_token(#[trigger] ts[i]) by {
        assert(formatted_time(etas[i].arrival_time@) is Some);
        let hm = parsed_clock(etas[i].arrival_time@)->Some_0;
        lemma_decimal_shape(hm.0 as nat);
        lemma_decimal_shape(hm.1 as nat);
        let t = clock_text(hm.0 as nat, hm.1 as nat);
        assert forall|j: int| 0 <= j < t.len() implies t[j] != ' ' by {
            let h = crate::text::decimal(hm.0 as nat);
            if j < h.len() {
                assert(t[j] == h[j]);
            } else if j > h.len() {
                assert(t[j] == crate::text::decimal(hm.1 as nat)[j - h.len() - 1]);
            }
        }
    }
    lemma_join_separators(ts);
}

/// Joins display times with single spaces.
pub fn join_display_times(times: &Vec<String>) -> (r: String)
    ensures
        r@ == join_times(views(times@)),
{
    let mut r = String::new();
    let mut i: usize = 0;
    while i < times.len()
        invariant
            i <= times@.len(),
            r@ == join_times(views(times@).take(i as int)),
        decreases times@.len() - i,
    {
        let ghost prev = views(times@).take(i as int);
        proof {
            reveal_strlit(" ");
        }
        if i > 0 {
            r.append(" ");
        }
        r.append(times[i].as_str());
        proof {
            let next = views(times@).take(i + 1);
            assert(next.drop_last() =~= prev);
            assert(next.last() == times@[i as int]@);
            if i == 0 {
                assert(prev =~= seq![]);
                assert(r@ =~= join_times(next));
            } else {
                assert(r@ =~= join_times(prev) + seq![' '] + next.last());
            }
        }
        i = i + 1;
    }
    assert(views(times@).take(times@.len() as int) =~= views(times@));
    r
}

/// Lays out a stop's block from its name, direction label and display times.
pub fn compose_display(stop_name: &str, direction: &str, times: &Vec<String>) -> (r: String)
    ensures
        r@ == board_text(stop_name@, direction@, views(times@)),
{
    proof {
        reveal_strlit("\n");
        reveal_strlit("\n--\n");
    }
    let joined = join_display_times(times);
    let mut r = String::from_str(stop_name);
    r.append("\n");
    r.append(direction);
    r.append("\n--\n");
    r.append(joined.as_str());
    r.append("\n");
    assert(r@ =~= board_text(stop_name@, direction@, views(times@)));
    r
}

/// Renders the arrivals of one fetch for a stop. With no arrivals the block
/// says that no trains are scheduled; otherwise it carries the first record's
/// description as direction label and every arrival time, in order. A time
/// that cannot be read fails the whole block with that record's error.
pub fn generate_display_text(train_info: &TrainInfo, stop: &Stop) -> (r: Result<
    String,
    TimeParseError,
>)
    ensures
        (r is Ok) == (rendered_text(train_info.eta@, stop.name@) is Some),
        r is Ok ==> r->Ok_0@ == rendered_text(train_info.eta@, stop.name@)->Some_0,
        !all_times_readable(train_info.eta@) ==> r is Err && exists|k: int|
            first_unreadable(train_info.eta@, k) && r->Err_0.input@
                == train_info.eta@[k].arrival_time@,
{
    let n = train_info.eta.len();
    if n == 0 {
        proof {
            reveal_strlit("\n\n--\nNo trains scheduled");
        }
        let mut r = String::from_str(stop.name.as_str());
        r.append("\n\n--\nNo trains scheduled");
        return Ok(r);
    }
    let mut times: Vec<String> = Vec::new();
    let mut i: usize = 0;
    while i < n
        invariant
            n == train_info.eta@.len(),
            i <= n,
            times@.len() == i,
            forall|j: int|
                0 <= j < i ==> (#[trigger] formatted_time(train_info.eta@[j].arrival_time@)) is Some,
            forall|j: int|
                0 <= j < i ==> (#[trigger] times@[j])@ == formatted_time(
                    train_info.eta@[j].arrival_time@,
                )->Some_0,
        decreases n - i,
    {
        match format_time(train_info.eta[i].arrival_time.as_str()) {
            Ok(t) => {
                times.push(t);
            },
            Err(e) => {
                assert(first_unreadable(train_info.eta@, i as int));
                return Err(e);
            },
        }
        i = i + 1;
    }
    assert(views(times@) =~= display_times(train_info.eta@));
    Ok(compose_display(stop.name.as_str(), train_info.eta[0].stop_description.as_str(), &times))
}

} // verus!
