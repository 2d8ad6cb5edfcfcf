//! Frontend enumerator: given an adapter and the results of probing its
//! frontend paths at indices 0, 1, 2, ..., report one `FrontendAppeared`
//! message per genuine character-special device node, stopping at the first
//! absent index.

use vstd::prelude::*;
use crate::ids::FrontendId;
use crate::messages::{FileStatus, Message};

verus! {

/// The messages an enumeration pass emits when the probe of frontend index
/// `start + j` reported `statuses[j]`: the scan walks the statuses in order,
/// stops at the first absent path, emits a `FrontendAppeared` for each
/// character device and skips entries of any other file type.
pub open spec fn spec_scan_from(adapter: u16, statuses: Seq<FileStatus>, start: nat) -> Seq<
    Message,
>
    decreases statuses.len(),
{
    if statuses.len() == 0 {
        seq![]
    } else {
        match statuses[0] {
            FileStatus::Absent => seq![],
            FileStatus::CharDevice => seq![
                Message::FrontendAppeared {
                    fei: FrontendId { adapter, frontend: start as u16 },
                },
            ] + spec_scan_from(adapter, statuses.drop_first(), start + 1),
            FileStatus::OtherType => spec_scan_from(adapter, statuses.drop_first(), start + 1),
        }
    }
}

/// The messages an enumeration pass over one adapter emits, where
/// `statuses[j]` is what probing frontend index `j` reported.
pub open spec fn spec_frontend_events(adapter: u16, statuses: Seq<FileStatus>) -> Seq<Message> {
    spec_scan_from(adapter, statuses, 0)
}

/// Process a newly present adapter: compute the `FrontendAppeared` messages
/// for all the frontends newly accessible, given the probed status of each
/// contiguous frontend index.
pub fn add_frontends(adapter: u16, statuses: &Vec<FileStatus>) -> (events: Vec<Message>)
    requires
        statuses@.len() <= 0x10000,
    ensures
        events@ == spec_frontend_events(adapter, statuses@),
{
    let mut events: Vec<Message> = Vec::new();
    let mut i: usize = 0;
    let mut stop = false;
    proof {
        assert(statuses@.skip(0) =~= statuses@);
        assert(events@ + spec_frontend_events(adapter, statuses@) =~= spec_frontend_events(
            adapter,
            statuses@,
        ));
    }
    while i < statuses.len() && !stop
        invariant
            i <= statuses@.len() <= 0x10000,
            stop ==> events@ == spec_frontend_events(adapter, statuses@),
            !stop ==> events@ + spec_scan_from(adapter, statuses@.skip(i as int), i as nat)
                == spec_frontend_events(adapter, statuses@),
        decreases statuses@.len() - i + (if stop { 0int } else { 1int }),
    {
        proof {
            assert(statuses@.skip(i as int)[0] == statuses@[i as int]);
            assert(statuses@.skip(i as int).drop_first() =~= statuses@.skip(i as int + 1));
        }
        match statuses[i] {
            FileStatus::Absent => {
                stop = true;
                proof {
                    assert(events@ + spec_scan_from(adapter, statuses@.skip(i as int), i as nat)
                        =~= events@);
                }
            },
            FileStatus::CharDevice => {
                let ghost pre = events@;
                events.push(Message::FrontendAppeared {
                    fei: FrontendId { adapter, frontend: i as u16 },
                });
                i = i + 1;
                proof {
                    assert(events@ + spec_scan_from(adapter, statuses@.skip(i as int), i as nat)
                        =~= pre + spec_scan_from(adapter, statuses@.skip(i as int - 1), (i
                        - 1) as nat));
                }
            },
            FileStatus::OtherType => {
                i = i + 1;
            },
        }
    }
    proof {
        if !stop {
            assert(statuses@.skip(i as int) =~= Seq::<FileStatus>::empty());
            assert(events@ + spec_scan_from(adapter, statuses@.skip(i as int), i as nat)
                =~= events@);
        }
    }
    events
}

/// Whether a message is a frontend appearance on the given adapter.
pub open spec fn is_appearance_for(m: Message, adapter: u16) -> bool {
    m matches Message::FrontendAppeared { fei } && fei.adapter == adapter
}

/// The frontend index an appearance message reports.
pub open spec fn appearance_frontend(m: Message) -> u16
    recommends
        m is FrontendAppeared,
{
    match m {
        Message::FrontendAppeared { fei } => fei.frontend,
        Message::AdapterDisappeared { id } => 0,
    }
}

proof fn lemma_scan_from_ordered(adapter: u16, statuses: Seq<FileStatus>, start: nat)
    requires
        start + statuses.len() <= 0x10000,
    ensures
        forall|j: int|
            0 <= j < spec_scan_from(adapter, statuses, start).len() ==> is_appearance_for(
                spec_scan_from(adapter, statuses, start)[j],
                adapter,
            ),
        forall|j: int|
            0 <= j < spec_scan_from(adapter, statuses, start).len() ==> (start
                <= appearance_frontend(spec_scan_from(adapter, statuses, start)[j]) as int
                && (appearance_frontend(spec_scan_from(adapter, statuses, start)[j]) as int)
                < start + statuses.len()),
        forall|j1: int, j2: int|
            0 <= j1 < j2 < spec_scan_from(adapter, statuses, start).len() ==> appearance_frontend(
                spec_scan_from(adapter, statuses, start)[j1],
            ) < appearance_frontend(spec_scan_from(adapter, statuses, start)[j2]),
    decreases statuses.len(),
{
    let ev = spec_scan_from(adapter, statuses, start);
    if statuses.len() == 0 || statuses[0] is Absent {
    } else {
        let rest = statuses.drop_first();
        let ev_rest = spec_scan_from(adapter, rest, start + 1);
        lemma_scan_from_ordered(adapter, rest, start + 1);
        if statuses[0] is CharDevice {
            assert forall|j: int| 0 <= j < ev.len() implies is_appearance_for(ev[j], adapter)
                && start <= appearance_frontend(ev[j]) as int && (appearance_frontend(ev[j]) as int)
                < start + statuses.len() by {
                if j > 0 {
                    assert(ev[j] == ev_rest[j - 1]);
                }
            }
            assert forall|j1: int, j2: int|
                0 <= j1 < j2 < ev.len() implies appearance_frontend(ev[j1])
                < appearance_frontend(ev[j2]) by {
                assert(ev[j2] == ev_rest[j2 - 1]);
                if j1 > 0 {
                    assert(ev[j1] == ev_rest[j1 - 1]);
                }
            }
        }
    }
}

/// Whatever an enumeration pass found, every message it emits is a
/// `FrontendAppeared` for the scanned adapter, and the reported frontend
/// indices are strictly increasing: emission order matches index order.
pub proof fn lemma_events_in_index_order(adapter: u16, statuses: Seq<FileStatus>)
    requires
        statuses.len() <= 0x10000,
    ensures
        forall|j: int|
            0 <= j < spec_frontend_events(adapter, statuses).len() ==> is_appearance_for(
                spec_frontend_events(adapter, statuses)[j],
                adapter,
            ),
        forall|j1: int, j2: int|
            0 <= j1 < j2 < spec_frontend_events(adapter, statuses).len() ==> appearance_frontend(
                spec_frontend_events(adapter, statuses)[j1],
            ) < appearance_frontend(spec_frontend_events(adapter, statuses)[j2]),
{
    lemma_scan_from_ordered(adapter, statuses, 0);
}

proof fn lemma_scan_all_char(adapter: u16, statuses: Seq<FileStatus>, start: nat, k: int)
    requires
        0 <= k <= statuses.len(),
        start + statuses.len() <= 0x10000,
        forall|i: int| 0 <= i < k ==> statuses[i] == FileStatus::CharDevice,
        k < statuses.len() ==> statuses[k] == FileStatus::Absent,
    ensures
        spec_scan_from(adapter, statuses, start).len() == k,
        forall|i: int|
            0 <= i < k ==> spec_scan_from(adapter, statuses, start)[i]
                == (Message::FrontendAppeared {
                fei: FrontendId { adapter, frontend: (start + i) as u16 },
            }),
    decreases k,
{
    if k == 0 {
    } else {
        let rest = statuses.drop_first();
        assert forall|i: int| 0 <= i < k - 1 implies rest[i] == FileStatus::CharDevice by {
            assert(rest[i] == statuses[i + 1]);
        }
        lemma_scan_all_char(adapter, rest, start + 1, k - 1);
        let ev = spec_scan_from(adapter, statuses, start);
        let ev_rest = spec_scan_from(adapter, rest, start + 1);
        assert forall|i: int|
            0 <= i < k implies ev[i] == (Message::FrontendAppeared {
            fei: FrontendId { adapter, frontend: (start + i) as u16 },
        }) by {
            if i > 0 {
                assert(ev[i] == ev_rest[i - 1]);
            }
        }
    }
}

/// For an adapter whose frontend paths are character devices at the
/// contiguous indices `0 .. k-1` and absent at index `k`, an enumeration
/// pass emits exactly `k` `FrontendAppeared` messages, in increasing index
/// order, whatever the statuses beyond `k` would have been.
pub proof fn lemma_enumerates_contiguous_prefix(adapter: u16, statuses: Seq<FileStatus>, k: int)
    requires
        0 <= k <= statuses.len() <= 0x10000,
        forall|i: int| 0 <= i < k ==> statuses[i] == FileStatus::CharDevice,
        k < statuses.len() ==> statuses[k] == FileStatus::Absent,
    ensures
        spec_frontend_events(adapter, statuses).len() == k,
        forall|i: int|
            0 <= i < k ==> spec_frontend_events(adapter, statuses)[i]
                == (Message::FrontendAppeared {
                fei: FrontendId { adapter, frontend: i as u16 },
            }),
{
    lemma_scan_all_char(adapter, statuses, 0, k);
}

proof fn lemma_scan_skips_wrong_type(
    adapter: u16,
    statuses: Seq<FileStatus>,
    start: nat,
    w: int,
    k: int,
)
    requires
        0 <= w < k <= statuses.len(),
        start + statuses.len() <= 0x10000,
        statuses[w] == FileStatus::OtherType,
        forall|i: int| 0 <= i < k && i != w ==> statuses[i] == FileStatus::CharDevice,
        k < statuses.len() ==> statuses[k] == FileStatus::Absent,
    ensures
        spec_scan_from(adapter, statuses, start).len() == k - 1,
        forall|i: int|
            0 <= i < w ==> spec_scan_from(adapter, statuses, start)[i]
                == (Message::FrontendAppeared {
                fei: FrontendId { adapter, frontend: (start + i) as u16 },
            }),
        forall|i: int|
            w <= i < k - 1 ==> spec_scan_from(adapter, statuses, start)[i]
                == (Message::FrontendAppeared {
                fei: FrontendId { adapter, frontend: (start + i + 1) as u16 },
            }),
    decreases w,
{
    let rest = statuses.drop_first();
    let ev = spec_scan_from(adapter, statuses, start);
    let ev_rest = spec_scan_from(adapter, rest, start + 1);
    if w == 0 {
        assert forall|i: int| 0 <= i < k - 1 implies rest[i] == FileStatus::CharDevice by {
            assert(rest[i] == statuses[i + 1]);
        }
        lemma_scan_all_char(adapter, rest, start + 1, k - 1);
        assert(ev == ev_rest);
    } else {
        assert(rest[w - 1] == statuses[w]);
        assert forall|i: int| 0 <= i < k - 1 && i != w - 1 implies rest[i]
            == FileStatus::CharDevice by {
            assert(rest[i] == statuses[i + 1]);
        }
        lemma_scan_skips_wrong_type(adapter, rest, start + 1, w - 1, k - 1);
        assert forall|i: int|
            0 <= i < w implies ev[i] == (Message::FrontendAppeared {
            fei: FrontendId { adapter, frontend: (start + i) as u16 },
        }) by {
            if i > 0 {
                assert(ev[i] == ev_rest[i - 1]);
            }
        }
        assert forall|i: int|
            w <= i < k - 1 implies ev[i] == (Message::FrontendAppeared {
            fei: FrontendId { adapter, frontend: (start + i + 1) as u16 },
        }) by {
            assert(ev[i] == ev_rest[i - 1]);
        }
    }
}

/// A present path of the wrong file type at index `w < k` is skipped — no
/// message is emitted for `w` — without halting the scan: the character
/// devices at all the other indices below the absent index `k` are still
/// reported, in increasing index order.
pub proof fn lemma_wrong_type_skipped(adapter: u16, statuses: Seq<FileStatus>, w: int, k: int)
    requires
        0 <= w < k <= statuses.len() <= 0x10000,
        statuses[w] == FileStatus::OtherType,
        forall|i: int| 0 <= i < k && i != w ==> statuses[i] == FileStatus::CharDevice,
        k < statuses.len() ==> statuses[k] == FileStatus::Absent,
    ensures
        spec_frontend_events(adapter, statuses).len() == k - 1,
        forall|i: int|
            0 <= i < w ==> spec_frontend_events(adapter, statuses)[i]
                == (Message::FrontendAppeared {
                fei: FrontendId { adapter, frontend: i as u16 },
            }),
        forall|i: int|
            w <= i < k - 1 ==> spec_frontend_events(adapter, statuses)[i]
                == (Message::FrontendAppeared {
                fei: FrontendId { adapter, frontend: (i + 1) as u16 },
            }),
{
    lemma_scan_skips_wrong_type(adapter, statuses, 0, w, k);
}

} // verus!
