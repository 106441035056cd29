//! The history ledger: the outcomes of download jobs, newest first, at most
//! ten per client and two thousand in all. A client is served its own
//! entries and no others.
use vstd::prelude::*;
use vstd::string::*;
use crate::clock::Timestamp;
use crate::model::{duplicate_opt, DownloadMode, DownloadStatus, HistoryEntry};
use crate::text::str_eq;

verus! {

/// The most entries kept, and served, for one client.
pub const HISTORY_PER_IP_LIMIT: usize = 10;

/// The most entries kept in all.
pub const HISTORY_MAX_ENTRIES: usize = 2_000;

/// The test for belonging to `client`.
pub open spec fn belongs_to(client: Seq<char>) -> spec_fn(HistoryEntry) -> bool {
    |e: HistoryEntry| e.requester_ip@ == client
}

/// The test for belonging to someone other than `client`.
pub open spec fn belongs_to_other(client: Seq<char>) -> spec_fn(HistoryEntry) -> bool {
    |e: HistoryEntry| e.requester_ip@ != client
}

/// `entries` without those that have `HISTORY_PER_IP_LIMIT` kept entries of
/// the same client in front of them.
pub open spec fn capped_per_client(entries: Seq<HistoryEntry>) -> Seq<HistoryEntry>
    decreases entries.len(),
{
    if entries.len() == 0 {
        entries
    } else {
        let kept = capped_per_client(entries.drop_last());
        if kept.filter(belongs_to(entries.last().requester_ip@)).len() < HISTORY_PER_IP_LIMIT {
            kept.push(entries.last())
        } else {
            kept
        }
    }
}

/// The first `limit` elements, or all when there are no more.
pub open spec fn at_most<A>(s: Seq<A>, limit: nat) -> Seq<A> {
    if s.len() > limit {
        s.take(limit as int)
    } else {
        s
    }
}

/// The ledger's limits applied: the per-client cap first, then the cap on
/// the whole.
pub open spec fn trimmed_history(entries: Seq<HistoryEntry>) -> Seq<HistoryEntry> {
    at_most(capped_per_client(entries), HISTORY_MAX_ENTRIES as nat)
}

/// What `client` is served: its entries in the ledger's order, at most
/// `HISTORY_PER_IP_LIMIT` of them.
pub open spec fn served_history(entries: Seq<HistoryEntry>, client: Seq<char>) -> Seq<HistoryEntry> {
    at_most(entries.filter(belongs_to(client)), HISTORY_PER_IP_LIMIT as nat)
}

/// The per-client cap holds of what it leaves, and it leaves nothing that
/// was not there.
pub proof fn lemma_capped_per_client(entries: Seq<HistoryEntry>, client: Seq<char>)
    ensures
        capped_per_client(entries).filter(belongs_to(client)).len() <= HISTORY_PER_IP_LIMIT,
        capped_per_client(entries).len() <= entries.len(),
        forall|i: int|
            0 <= i < capped_per_client(entries).len() ==> entries.contains(
                #[trigger] capped_per_client(entries)[i],
            ),
    decreases entries.len(),
{
    if entries.len() == 0 {
        entries.lemma_filter_len(belongs_to(client));
    } else {
        let head = entries.drop_last();
        let e = entries.last();
        let kept = capped_per_client(head);
        lemma_capped_per_client(head, client);
        kept.lemma_filter_push(e, belongs_to(client));
        assert forall|i: int| 0 <= i < capped_per_client(entries).len() implies entries.contains(
            #[trigger] capped_per_client(entries)[i],
        ) by {
            if i < kept.len() {
                let k = choose|k: int| 0 <= k < head.len() && head[k] == kept[i];
                assert(entries[k] == kept[i]);
            } else {
                assert(entries[entries.len() - 1] == e);
            }
        }
    }
}

/// The ledger's limits hold of a trimmed history: no client has more than
/// `HISTORY_PER_IP_LIMIT` entries, and there are no more than
/// `HISTORY_MAX_ENTRIES`.
pub proof fn lemma_trimmed_history_is_capped(entries: Seq<HistoryEntry>, client: Seq<char>)
    ensures
        trimmed_history(entries).len() <= HISTORY_MAX_ENTRIES,
        trimmed_history(entries).filter(belongs_to(client)).len() <= HISTORY_PER_IP_LIMIT,
{
    let capped = capped_per_client(entries);
    lemma_capped_per_client(entries, client);
    if capped.len() > HISTORY_MAX_ENTRIES {
        let cut = capped.take(HISTORY_MAX_ENTRIES as int);
        let rest = capped.skip(HISTORY_MAX_ENTRIES as int);
        assert(cut + rest =~= capped);
        Seq::filter_distributes_over_add(cut, rest, belongs_to(client));
    }
}

/// `kept` holds entries of `all` in the order in which they stand in `all`.
pub open spec fn keeps_order(kept: Seq<HistoryEntry>, all: Seq<HistoryEntry>) -> bool
    decreases all.len(),
{
    if kept.len() == 0 {
        true
    } else if all.len() == 0 {
        false
    } else {
        (kept.last() == all.last() && keeps_order(kept.drop_last(), all.drop_last()))
            || keeps_order(kept, all.drop_last())
    }
}

/// Trimming drops entries and moves none: what is left of a history that
/// was newest first is newest first.
pub proof fn lemma_trimmed_history_keeps_order(entries: Seq<HistoryEntry>)
    ensures
        keeps_order(trimmed_history(entries), entries),
    decreases entries.len(),
{
    if entries.len() > 0 {
        let head = entries.drop_last();
        let e = entries.last();
        let kept = capped_per_client(head);
        let limit = HISTORY_MAX_ENTRIES as nat;
        lemma_trimmed_history_keeps_order(head);
        if capped_per_client(entries) == kept.push(e) {
            if kept.len() < limit {
                assert(trimmed_history(entries) == kept.push(e));
                assert(kept.push(e).drop_last() =~= kept);
            } else {
                assert(trimmed_history(entries) =~= trimmed_history(head));
            }
        }
    }
}

/// The number of entries of `client` among the first `upto`.
pub fn count_for_client(entries: &Vec<HistoryEntry>, upto: usize, client: &str) -> (n: usize)
    requires
        upto <= entries.len(),
    ensures
        n == entries@.take(upto as int).filter(belongs_to(client@)).len(),
        n <= upto,
{
    let mut n: usize = 0;
    let mut j: usize = 0;
    proof {
        entries@.take(0).lemma_filter_len(belongs_to(client@));
    }
    while j < upto
        invariant
            j <= upto <= entries.len(),
            n <= j,
            n == entries@.take(j as int).filter(belongs_to(client@)).len(),
        decreases upto - j,
    {
        proof {
            entries@.take(j as int).lemma_filter_push(entries@[j as int], belongs_to(client@));
            assert(entries@.take(j as int).push(entries@[j as int]) =~= entries@.take(
                j as int + 1,
            ));
        }
        if str_eq(entries[j].requester_ip.as_str(), client) {
            n += 1;
        }
        j += 1;
    }
    n
}

/// Applies the ledger's limits to `entries`, which are newest first: of each
/// client the first `HISTORY_PER_IP_LIMIT` stay, and of what is left the
/// first `HISTORY_MAX_ENTRIES`.
pub fn trim_history_limits(entries: &mut Vec<HistoryEntry>)
    ensures
        final(entries)@ == trimmed_history(old(entries)@),
{
    let ghost all = entries@;
    let ghost mut seen: int = 0;
    let mut i: usize = 0;
    assert(all.take(0) =~= Seq::<HistoryEntry>::empty());
    assert(capped_per_client(all.take(0)) + all.skip(0) =~= all);
    while i < entries.len()
        invariant
            0 <= seen <= all.len(),
            i == capped_per_client(all.take(seen)).len(),
            entries@ == capped_per_client(all.take(seen)) + all.skip(seen),
        decreases all.len() - seen,
    {
        let ghost kept = capped_per_client(all.take(seen));
        proof {
            assert(seen < all.len());
            assert(entries@[i as int] == all[seen]);
            assert(all.take(seen + 1).drop_last() =~= all.take(seen));
            assert(all.take(seen + 1).last() == all[seen]);
            assert(entries@.take(i as int) =~= kept);
        }
        let owner = entries[i].requester_ip.clone();
        let already = count_for_client(entries, i, owner.as_str());
        if already >= HISTORY_PER_IP_LIMIT {
            entries.remove(i);
            assert(entries@ =~= kept + all.skip(seen + 1));
        } else {
            assert(entries@ =~= kept.push(all[seen]) + all.skip(seen + 1));
            i += 1;
        }
        proof {
            seen = seen + 1;
        }
    }
    proof {
        assert(seen == all.len()) by {
            if seen < all.len() {
                assert(entries@.len() == i + (all.len() - seen));
            }
        }
        assert(all.take(seen) =~= all);
        assert(entries@ =~= capped_per_client(all));
    }
    if entries.len() > HISTORY_MAX_ENTRIES {
        entries.truncate(HISTORY_MAX_ENTRIES);
    }
}

/// The ledger.
pub struct HistoryLedger {
    pub entries: Vec<HistoryEntry>,
}

impl View for HistoryLedger {
    type V = Seq<HistoryEntry>;

    open spec fn view(&self) -> Seq<HistoryEntry> {
        self.entries@
    }
}

impl HistoryLedger {
    pub fn new() -> (ledger: HistoryLedger)
        ensures
            ledger@ == Seq::<HistoryEntry>::empty(),
    {
        HistoryLedger { entries: Vec::new() }
    }

    /// The number of entries in the ledger.
    pub fn len(&self) -> (n: usize)
        ensures
            n == self@.len(),
    {
        self.entries.len()
    }

    /// A copy of the ledger's entries, for writing them out.
    pub fn snapshot(&self) -> (copy: Vec<HistoryEntry>)
        ensures
            copy@ == self@,
    {
        let mut copy: Vec<HistoryEntry> = Vec::new();
        let mut i: usize = 0;
        while i < self.entries.len()
            invariant
                i <= self.entries.len(),
                copy@ == self.entries@.take(i as int),
            decreases self.entries.len() - i,
        {
            copy.push(self.entries[i].duplicate());
            i += 1;
            assert(copy@ =~= self.entries@.take(i as int));
        }
        assert(self.entries@.take(self.entries.len() as int) =~= self.entries@);
        copy
    }
}

/// The ledger for the entries that were written out, with the limits
/// applied.
pub fn load_history(entries: Vec<HistoryEntry>) -> (ledger: HistoryLedger)
    ensures
        ledger@ == trimmed_history(entries@),
{
    let mut entries = entries;
    trim_history_limits(&mut entries);
    HistoryLedger { entries }
}

/// Records an outcome: the entry goes to the front, then the limits are
/// applied.
pub fn push_history(ledger: &mut HistoryLedger, entry: HistoryEntry)
    ensures
        final(ledger)@ == trimmed_history(seq![entry] + old(ledger)@),
{
    ledger.entries.insert(0, entry);
    assert(ledger.entries@ =~= seq![entry] + old(ledger)@);
    trim_history_limits(&mut ledger.entries);
}

/// The entries that `client_ip` is served: its own, in the ledger's order,
/// at most `HISTORY_PER_IP_LIMIT`. No entry of another client is among them.
pub fn get_history(ledger: &HistoryLedger, client_ip: &str) -> (served: Vec<HistoryEntry>)
    ensures
        served@ == served_history(ledger@, client_ip@),
        forall|i: int| 0 <= i < served.len() ==> (#[trigger] served[i]).requester_ip@ == client_ip@,
{
    let mut served: Vec<HistoryEntry> = Vec::new();
    let mut i: usize = 0;
    proof {
        ledger@.take(0).lemma_filter_len(belongs_to(client_ip@));
    }
    while i < ledger.entries.len()
        invariant
            i <= ledger.entries.len(),
            served@ == served_history(ledger@.take(i as int), client_ip@),
            forall|k: int|
                0 <= k < served.len() ==> (#[trigger] served[k]).requester_ip@ == client_ip@,
        decreases ledger.entries.len() - i,
    {
        proof {
            ledger@.take(i as int).lemma_filter_push(ledger@[i as int], belongs_to(client_ip@));
            assert(ledger@.take(i as int).push(ledger@[i as int]) =~= ledger@.take(i as int + 1));
        }
        if served.len() < HISTORY_PER_IP_LIMIT && str_eq(
            ledger.entries[i].requester_ip.as_str(),
            client_ip,
        ) {
            served.push(ledger.entries[i].duplicate());
        }
        i += 1;
        assert(served@ =~= served_history(ledger@.take(i as int), client_ip@));
    }
    assert(ledger@.take(ledger.entries.len() as int) =~= ledger@);
    served
}

/// A ledger entry as it is served: all of it but the client it belongs
/// to.
#[derive(Debug)]
pub struct ServedEntry {
    pub id: String,
    pub created_at: Timestamp,
    pub url: String,
    pub title: Option<String>,
    pub thumbnail: Option<String>,
    pub mode: DownloadMode,
    pub format: String,
    pub status: DownloadStatus,
    pub saved_path: Option<String>,
    pub error: Option<String>,
}

pub open spec fn served_form(entry: HistoryEntry) -> ServedEntry {
    ServedEntry {
        id: entry.id,
        created_at: entry.created_at,
        url: entry.url,
        title: entry.title,
        thumbnail: entry.thumbnail,
        mode: entry.mode,
        format: entry.format,
        status: entry.status,
        saved_path: entry.saved_path,
        error: entry.error,
    }
}

pub fn serve_entry(entry: &HistoryEntry) -> (served: ServedEntry)
    ensures
        served == served_form(*entry),
{
    ServedEntry {
        id: entry.id.clone(),
        created_at: entry.created_at,
        url: entry.url.clone(),
        title: duplicate_opt(&entry.title),
        thumbnail: duplicate_opt(&entry.thumbnail),
        mode: entry.mode,
        format: entry.format.clone(),
        status: entry.status,
        saved_path: duplicate_opt(&entry.saved_path),
        error: duplicate_opt(&entry.error),
    }
}

/// The history of `client_ip` as it is served: the entries of
/// `get_history`, each without the client it belongs to.
pub fn list_history(ledger: &HistoryLedger, client_ip: &str) -> (served: Vec<ServedEntry>)
    ensures
        served@ == served_history(ledger@, client_ip@).map_values(
            |e: HistoryEntry| served_form(e),
        ),
{
    let entries = get_history(ledger, client_ip);
    let mut served: Vec<ServedEntry> = Vec::new();
    let mut i: usize = 0;
    while i < entries.len()
        invariant
            i <= entries.len(),
            served@ == entries@.take(i as int).map_values(|e: HistoryEntry| served_form(e)),
        decreases entries.len() - i,
    {
        served.push(serve_entry(&entries[i]));
        i += 1;
        assert(served@ =~= entries@.take(i as int).map_values(|e: HistoryEntry| served_form(e)));
    }
    assert(entries@.take(entries.len() as int) =~= entries@);
    served
}

/// Removes the entries of `client_ip`; those of every other client stay as
/// they are, in their order.
pub fn clear_history(ledger: &mut HistoryLedger, client_ip: &str)
    ensures
        final(ledger)@ == old(ledger)@.filter(belongs_to_other(client_ip@)),
{
    let ghost all = ledger@;
    let ghost mut seen: int = 0;
    let mut i: usize = 0;
    proof {
        all.take(0).lemma_filter_len(belongs_to_other(client_ip@));
        assert(all.take(0).filter(belongs_to_other(client_ip@)) + all.skip(0) =~= all);
    }
    while i < ledger.entries.len()
        invariant
            0 <= seen <= all.len(),
            i == all.take(seen).filter(belongs_to_other(client_ip@)).len(),
            ledger.entries@ == all.take(seen).filter(belongs_to_other(client_ip@)) + all.skip(seen),
        decreases all.len() - seen,
    {
        let ghost kept = all.take(seen).filter(belongs_to_other(client_ip@));
        proof {
            assert(seen < all.len());
            assert(ledger.entries@[i as int] == all[seen]);
            all.take(seen).lemma_filter_push(all[seen], belongs_to_other(client_ip@));
            assert(all.take(seen).push(all[seen]) =~= all.take(seen + 1));
        }
        if str_eq(ledger.entries[i].requester_ip.as_str(), client_ip) {
            ledger.entries.remove(i);
            assert(ledger.entries@ =~= kept + all.skip(seen + 1));
        } else {
            assert(ledger.entries@ =~= kept.push(all[seen]) + all.skip(seen + 1));
            i += 1;
        }
        proof {
            seen = seen + 1;
        }
    }
    proof {
        assert(seen == all.len()) by {
            if seen < all.len() {
                assert(ledger.entries@.len() == i + (all.len() - seen));
            }
        }
        assert(all.take(seen) =~= all);
        assert(ledger.entries@ =~= all.filter(belongs_to_other(client_ip@)));
    }
}

/// What a client is served after it cleared its history is nothing, and no
/// other client is served anything else than before.
pub proof fn lemma_clear_is_scoped(entries: Seq<HistoryEntry>, client: Seq<char>, other: Seq<char>)
    requires
        other != client,
    ensures
        served_history(entries.filter(belongs_to_other(client)), client) == Seq::<
            HistoryEntry,
        >::empty(),
        served_history(entries.filter(belongs_to_other(client)), other) == served_history(
            entries,
            other,
        ),
{
    assert forall|e: HistoryEntry| #[trigger] belongs_to(other)(e) implies belongs_to_other(client)(
        e,
    ) by {}
    crate::rate_limit::lemma_filter_narrower(entries, belongs_to_other(client), belongs_to(other));
    let cleared = entries.filter(belongs_to_other(client));
    lemma_no_entries_left(entries, client);
}

/// Filtering by one client what was filtered by all others leaves nothing.
proof fn lemma_no_entries_left(entries: Seq<HistoryEntry>, client: Seq<char>)
    ensures
        entries.filter(belongs_to_other(client)).filter(belongs_to(client)) == Seq::<
            HistoryEntry,
        >::empty(),
    decreases entries.len(),
{
    if entries.len() == 0 {
        entries.lemma_filter_len(belongs_to_other(client));
        entries.filter(belongs_to_other(client)).lemma_filter_len(belongs_to(client));
        assert(entries.filter(belongs_to_other(client)).filter(belongs_to(client)) =~= Seq::<
            HistoryEntry,
        >::empty());
    } else {
        let head = entries.drop_last();
        let e = entries.last();
        assert(head.push(e) =~= entries);
        lemma_no_entries_left(head, client);
        head.lemma_filter_push(e, belongs_to_other(client));
        if belongs_to_other(client)(e) {
            head.filter(belongs_to_other(client)).lemma_filter_push(e, belongs_to(client));
        }
    }
}

} // verus!
