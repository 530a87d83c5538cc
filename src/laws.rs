use crate::dispatch::{count_resolved, tasks_spec};
use vstd::prelude::*;

verus! {

/// The tasks of a shorter run of resolutions are a prefix of those of a longer one.
proof fn lemma_tasks_prefix(tracks: Seq<(u64, Seq<char>)>, urls: Seq<Seq<char>>, n: int)
    requires
        0 <= n <= urls.len(),
    ensures
        tasks_spec(tracks, urls.take(n)).len() <= tasks_spec(tracks, urls).len(),
        forall|k: int|
            0 <= k < tasks_spec(tracks, urls.take(n)).len() ==> tasks_spec(tracks, urls)[k]
                == tasks_spec(tracks, urls.take(n))[k],
    decreases urls.len(),
{
    if n == urls.len() {
        assert(urls.take(n) =~= urls);
    } else {
        let shorter = urls.drop_last();
        assert(shorter.take(n) =~= urls.take(n));
        lemma_tasks_prefix(tracks, shorter, n);
    }
}

/// One task per non-empty address.
proof fn lemma_tasks_len(tracks: Seq<(u64, Seq<char>)>, urls: Seq<Seq<char>>)
    ensures
        tasks_spec(tracks, urls).len() == count_resolved(urls),
        count_resolved(urls) <= urls.len(),
    decreases urls.len(),
{
    if urls.len() > 0 {
        lemma_tasks_len(tracks, urls.drop_last());
    }
}

/// The count of non-empty addresses only grows along the run.
proof fn lemma_count_monotone(urls: Seq<Seq<char>>, i: int, j: int)
    requires
        0 <= i <= j <= urls.len(),
    ensures
        count_resolved(urls.take(i)) <= count_resolved(urls.take(j)),
    decreases j - i,
{
    if i < j {
        lemma_count_monotone(urls, i, j - 1);
        assert(urls.take(j).drop_last() =~= urls.take(j - 1));
    }
}

/// Where the task of track `i` stands: after those of the earlier tracks.
proof fn lemma_task_position(tracks: Seq<(u64, Seq<char>)>, urls: Seq<Seq<char>>, i: int)
    requires
        0 <= i < urls.len(),
        urls[i].len() > 0,
    ensures
        count_resolved(urls.take(i)) < count_resolved(urls.take(i + 1)),
        count_resolved(urls.take(i)) < tasks_spec(tracks, urls).len(),
        tasks_spec(tracks, urls)[count_resolved(urls.take(i)) as int] == (tracks[i].1, urls[i]),
{
    assert(urls.take(i + 1).drop_last() =~= urls.take(i));
    lemma_tasks_len(tracks, urls.take(i));
    lemma_tasks_prefix(tracks, urls, i + 1);
}

/// A pass delivers at most one task per track, and exactly as many as there
/// were tracks whose address came back non-empty.
pub proof fn law_delivered_count(tracks: Seq<(u64, Seq<char>)>, urls: Seq<Seq<char>>)
    requires
        urls.len() == tracks.len(),
    ensures
        tasks_spec(tracks, urls).len() <= tracks.len(),
        tasks_spec(tracks, urls).len() == count_resolved(urls),
{
    lemma_tasks_len(tracks, urls);
}

/// Tasks are delivered in the order of the search results: the task of an
/// earlier track comes before the task of a later one, and each carries its
/// own track's name and address.
pub proof fn law_delivery_order(
    tracks: Seq<(u64, Seq<char>)>,
    urls: Seq<Seq<char>>,
    i: int,
    j: int,
)
    requires
        urls.len() == tracks.len(),
        0 <= i < j < urls.len(),
        urls[i].len() > 0,
        urls[j].len() > 0,
    ensures
        count_resolved(urls.take(i)) < count_resolved(urls.take(j)),
        count_resolved(urls.take(j)) < tasks_spec(tracks, urls).len(),
        tasks_spec(tracks, urls)[count_resolved(urls.take(i)) as int] == (tracks[i].1, urls[i]),
        tasks_spec(tracks, urls)[count_resolved(urls.take(j)) as int] == (tracks[j].1, urls[j]),
{
    lemma_task_position(tracks, urls, i);
    lemma_task_position(tracks, urls, j);
    lemma_count_monotone(urls, i + 1, j);
}

/// Where no track resolves to an address, nothing is delivered.
pub proof fn law_nothing_resolved(tracks: Seq<(u64, Seq<char>)>, urls: Seq<Seq<char>>)
    requires
        urls.len() == tracks.len(),
        forall|k: int| 0 <= k < urls.len() ==> urls[k].len() == 0,
    ensures
        tasks_spec(tracks, urls).len() == 0,
    decreases urls.len(),
{
    if urls.len() > 0 {
        law_nothing_resolved(tracks.drop_last(), urls.drop_last());
        lemma_same_tracks_prefix(tracks, tracks.drop_last(), urls.drop_last());
    }
}

/// Tasks depend only on the tracks that were resolved.
proof fn lemma_same_tracks_prefix(
    a: Seq<(u64, Seq<char>)>,
    b: Seq<(u64, Seq<char>)>,
    urls: Seq<Seq<char>>,
)
    requires
        urls.len() <= a.len(),
        urls.len() <= b.len(),
        forall|k: int| 0 <= k < urls.len() ==> a[k] == b[k],
    ensures
        tasks_spec(a, urls) == tasks_spec(b, urls),
    decreases urls.len(),
{
    if urls.len() > 0 {
        lemma_same_tracks_prefix(a, b, urls.drop_last());
    }
}

} // verus!
