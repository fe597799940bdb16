//! What holds of traversals over a chain that was built by prepending.

use vstd::prelude::*;
use crate::address::Address;
use crate::chain_header::ChainHeader;
use crate::storage::{StorageFault, lookup, stored};
use crate::chain_store::{
    Cursor, anchor, back_link, cursor_after_step, depth, ends_within, finite, first_of_type,
    handed_by_step, path, predecessor, walk,
};
use crate::entry::EntryType;

verus! {

/// The header at index `i` of `chain` is stored under its own address,
/// and it links to the address of the header just before it; the first
/// header has no link.
pub open spec fn links_back(
    contents: Map<Address, ChainHeader>,
    chain: Seq<ChainHeader>,
    i: int,
) -> bool {
    &&& lookup(contents, chain[i].spec_address()) == Some(chain[i])
    &&& chain[i].link == (if i == 0 {
        None
    } else {
        Some(chain[i - 1].spec_address())
    })
}

/// `chain`, oldest header first, is stored in `contents` and linked up:
/// the first header has no link, and every later one links to the
/// address of the header just before it.
pub open spec fn linked_chain(contents: Map<Address, ChainHeader>, chain: Seq<ChainHeader>) -> bool {
    forall|i: int| 0 <= i < chain.len() ==> #[trigger] links_back(contents, chain, i)
}

/// The headers of `chain` from index `k` down to the root.
pub open spec fn newest_first(chain: Seq<ChainHeader>, k: int) -> Seq<ChainHeader> {
    Seq::new((k + 1) as nat, |j: int| chain[k - j])
}

/// A traversal that ends within two amounts of fuel walks the same
/// headers with either.
pub proof fn lemma_walk_any_fuel(
    contents: Map<Address, ChainHeader>,
    current: Option<ChainHeader>,
    same_type: bool,
    n: nat,
    m: nat,
)
    requires
        ends_within(contents, current, same_type, n),
        ends_within(contents, current, same_type, m),
    ensures
        walk(contents, current, same_type, n) == walk(contents, current, same_type, m),
    decreases n,
{
    match current {
        None => {},
        Some(h) => {
            lemma_walk_any_fuel(
                contents,
                predecessor(contents, h, same_type),
                same_type,
                (n - 1) as nat,
                (m - 1) as nat,
            );
        },
    }
}

/// A traversal that ends within `n` steps is finite, and its path is
/// what `n` steps walk.
pub proof fn lemma_path_is_walk(
    contents: Map<Address, ChainHeader>,
    current: Option<ChainHeader>,
    same_type: bool,
    n: nat,
)
    requires
        ends_within(contents, current, same_type, n),
    ensures
        finite(contents, current, same_type),
        path(contents, current, same_type) == walk(contents, current, same_type, n),
{
    lemma_walk_any_fuel(contents, current, same_type, depth(contents, current, same_type), n);
}

proof fn lemma_linked_walk(contents: Map<Address, ChainHeader>, chain: Seq<ChainHeader>, k: int)
    requires
        linked_chain(contents, chain),
        0 <= k < chain.len(),
    ensures
        ends_within(contents, Some(chain[k]), false, (k + 1) as nat),
        walk(contents, Some(chain[k]), false, (k + 1) as nat) == newest_first(chain, k),
    decreases k,
{
    if k == 0 {
        lemma_linked_predecessor(contents, chain, 0);
        assert(ends_within(contents, None, false, 0));
        assert(walk(contents, None, false, 0) =~= Seq::empty());
        assert(walk(contents, Some(chain[0]), false, 1) =~= newest_first(chain, 0));
    } else {
        lemma_linked_walk(contents, chain, k - 1);
        lemma_linked_predecessor(contents, chain, k);
        assert(predecessor(contents, chain[k], false) == Some(chain[k - 1]));
        assert(seq![chain[k]] + newest_first(chain, k - 1) =~= newest_first(chain, k));
    }
}

/// On a chain built by prepending, the traversal from any of its headers
/// ends, and it walks exactly the headers from that one back to the
/// root, newest first: as many as the header is deep.
pub proof fn law_iter_walks_to_root(
    contents: Map<Address, ChainHeader>,
    chain: Seq<ChainHeader>,
    k: int,
)
    requires
        linked_chain(contents, chain),
        0 <= k < chain.len(),
    ensures
        finite(contents, Some(chain[k]), false),
        path(contents, Some(chain[k]), false) == newest_first(chain, k),
        path(contents, Some(chain[k]), false).len() == k + 1,
{
    lemma_linked_walk(contents, chain, k);
    lemma_path_is_walk(contents, Some(chain[k]), false, (k + 1) as nat);
}

/// A traversal without a start walks nothing, whichever link it follows.
pub proof fn law_no_start_walks_nothing(contents: Map<Address, ChainHeader>, same_type: bool)
    ensures
        finite(contents, None, same_type),
        path(contents, None, same_type) == Seq::<ChainHeader>::empty(),
{
    assert(ends_within(contents, None, same_type, 0));
    lemma_path_is_walk(contents, None, same_type, 0);
}

/// The index of the latest header of type `entry_type` at or before
/// index `k` of `chain`.
pub open spec fn latest_of_type(chain: Seq<ChainHeader>, k: int, entry_type: EntryType) -> Option<
    int,
>
    decreases k + 1,
{
    if k < 0 {
        None
    } else if chain[k].entry_type.same(&entry_type) {
        Some(k)
    } else {
        latest_of_type(chain, k - 1, entry_type)
    }
}

/// The headers of type `entry_type` at or before index `k` of `chain`,
/// newest first.
pub open spec fn of_type_newest_first(chain: Seq<ChainHeader>, k: int, entry_type: EntryType) -> Seq<
    ChainHeader,
>
    decreases k + 1,
{
    if k < 0 {
        Seq::empty()
    } else if chain[k].entry_type.same(&entry_type) {
        seq![chain[k]] + of_type_newest_first(chain, k - 1, entry_type)
    } else {
        of_type_newest_first(chain, k - 1, entry_type)
    }
}

/// `chain` is linked up, and the same-type link of every header is the
/// address of the latest earlier header of its type, or empty where
/// there is none.
pub open spec fn typed_chain(contents: Map<Address, ChainHeader>, chain: Seq<ChainHeader>) -> bool {
    &&& linked_chain(contents, chain)
    &&& forall|i: int|
        0 <= i < chain.len() ==> (#[trigger] chain[i]).link_same_type == (match latest_of_type(
            chain,
            i - 1,
            chain[i].entry_type,
        ) {
            Some(j) => Some(chain[j].spec_address()),
            None => None,
        })
}

proof fn lemma_ends_within_more(
    contents: Map<Address, ChainHeader>,
    current: Option<ChainHeader>,
    same_type: bool,
    n: nat,
    m: nat,
)
    requires
        ends_within(contents, current, same_type, n),
        n <= m,
    ensures
        ends_within(contents, current, same_type, m),
    decreases n,
{
    match current {
        None => {},
        Some(h) => {
            lemma_ends_within_more(
                contents,
                predecessor(contents, h, same_type),
                same_type,
                (n - 1) as nat,
                (m - 1) as nat,
            );
        },
    }
}

proof fn lemma_latest_of_type(chain: Seq<ChainHeader>, k: int, a: EntryType, t: EntryType)
    requires
        k < chain.len(),
    ensures
        a.same(&t) ==> latest_of_type(chain, k, a) == latest_of_type(chain, k, t),
        latest_of_type(chain, k, t) is None ==> of_type_newest_first(chain, k, t)
            == Seq::<ChainHeader>::empty(),
        latest_of_type(chain, k, t) matches Some(i) ==> 0 <= i <= k && chain[i].entry_type.same(&t)
            && of_type_newest_first(chain, k, t) == of_type_newest_first(chain, i, t),
    decreases k + 1,
{
    if k >= 0 {
        lemma_latest_of_type(chain, k - 1, a, t);
    }
}

proof fn lemma_depth_of_linked(
    contents: Map<Address, ChainHeader>,
    chain: Seq<ChainHeader>,
    k: int,
    fuel: nat,
)
    requires
        linked_chain(contents, chain),
        0 <= k < chain.len(),
        ends_within(contents, Some(chain[k]), false, fuel),
    ensures
        fuel >= k + 1,
    decreases k,
{
    if k > 0 {
        lemma_linked_predecessor(contents, chain, k);
        assert(predecessor(contents, chain[k], false) == Some(chain[k - 1]));
        lemma_depth_of_linked(contents, chain, k - 1, (fuel - 1) as nat);
    }
}

proof fn lemma_first_of_type(
    contents: Map<Address, ChainHeader>,
    chain: Seq<ChainHeader>,
    k: int,
    t: EntryType,
    fuel: nat,
)
    requires
        linked_chain(contents, chain),
        0 <= k < chain.len(),
        fuel >= k,
    ensures
        first_of_type(contents, Some(chain[k]), t, fuel) == (match latest_of_type(chain, k, t) {
            Some(j) => Some(chain[j]),
            None => None,
        }),
    decreases k,
{
    if !chain[k].entry_type.same(&t) {
        if k == 0 {
            lemma_linked_predecessor(contents, chain, 0);
            assert(latest_of_type(chain, -1, t) is None);
            if fuel > 0 {
                assert(first_of_type(contents, None, t, (fuel - 1) as nat) is None);
            }
        } else {
            lemma_linked_predecessor(contents, chain, k);
            assert(predecessor(contents, chain[k], false) == Some(chain[k - 1]));
            lemma_first_of_type(contents, chain, k - 1, t, (fuel - 1) as nat);
        }
    }
}

proof fn lemma_typed_walk(
    contents: Map<Address, ChainHeader>,
    chain: Seq<ChainHeader>,
    j: int,
    t: EntryType,
)
    requires
        typed_chain(contents, chain),
        0 <= j < chain.len(),
        chain[j].entry_type.same(&t),
    ensures
        ends_within(contents, Some(chain[j]), true, (j + 1) as nat),
        walk(contents, Some(chain[j]), true, (j + 1) as nat) == of_type_newest_first(chain, j, t),
    decreases j,
{
    lemma_latest_of_type(chain, j - 1, chain[j].entry_type, t);
    match latest_of_type(chain, j - 1, t) {
        None => {
            assert(chain[j].link_same_type is None);
            assert(predecessor(contents, chain[j], true) is None);
            assert(ends_within(contents, None, true, j as nat));
            assert(walk(contents, None, true, j as nat) =~= Seq::empty());
            assert(walk(contents, Some(chain[j]), true, (j + 1) as nat) =~= of_type_newest_first(
                chain,
                j,
                t,
            ));
        },
        Some(i) => {
            assert(links_back(contents, chain, i));
            assert(chain[j].link_same_type == Some(chain[i].spec_address()));
            assert(predecessor(contents, chain[j], true) == Some(chain[i]));
            lemma_typed_walk(contents, chain, i, t);
            lemma_ends_within_more(contents, Some(chain[i]), true, (i + 1) as nat, j as nat);
            lemma_walk_any_fuel(contents, Some(chain[i]), true, (i + 1) as nat, j as nat);
        },
    }
}

/// On a chain built by prepending, with same-type links set as the
/// chain grew, the same-type traversal for a type from any header ends,
/// and it walks exactly the headers of that type at or before that
/// header, newest first: it starts at the first of them and follows the
/// same-type links only.
pub proof fn law_iter_type_walks_same_type(
    contents: Map<Address, ChainHeader>,
    chain: Seq<ChainHeader>,
    k: int,
    entry_type: EntryType,
)
    requires
        typed_chain(contents, chain),
        0 <= k < chain.len(),
    ensures
        finite(contents, Some(chain[k]), false),
        finite(contents, anchor(contents, Some(chain[k]), entry_type), true),
        path(contents, anchor(contents, Some(chain[k]), entry_type), true) == of_type_newest_first(
            chain,
            k,
            entry_type,
        ),
{
    law_iter_walks_to_root(contents, chain, k);
    let d = depth(contents, Some(chain[k]), false);
    lemma_depth_of_linked(contents, chain, k, d);
    lemma_first_of_type(contents, chain, k, entry_type, d);
    lemma_latest_of_type(chain, k, entry_type, entry_type);
    match latest_of_type(chain, k, entry_type) {
        None => {
            law_no_start_walks_nothing(contents, true);
        },
        Some(j) => {
            lemma_typed_walk(contents, chain, j, entry_type);
            lemma_path_is_walk(contents, Some(chain[j]), true, (j + 1) as nat);
        },
    }
}

/// The header that a traversal stands at after `k` steps without a
/// fault, if it has not ended by then.
pub open spec fn nth_back(
    contents: Map<Address, ChainHeader>,
    current: Option<ChainHeader>,
    same_type: bool,
    k: nat,
) -> Option<ChainHeader>
    decreases k,
{
    if k == 0 {
        current
    } else {
        match current {
            None => None,
            Some(h) => nth_back(
                contents,
                predecessor(contents, h, same_type),
                same_type,
                (k - 1) as nat,
            ),
        }
    }
}

/// On a chain built by prepending, the traversal from the header at
/// index `n` stands, after `k` steps without a fault, at the header `k`
/// places nearer to the root, and has ended once the root is behind it.
/// So the step after those `k` hands out that header, or nothing.
pub proof fn law_kth_step_on_linked_chain(
    contents: Map<Address, ChainHeader>,
    chain: Seq<ChainHeader>,
    n: int,
    k: nat,
)
    requires
        linked_chain(contents, chain),
        0 <= n < chain.len(),
    ensures
        nth_back(contents, Some(chain[n]), false, k) == (if k <= n {
            Some(chain[n - k])
        } else {
            None
        }),
    decreases k,
{
    if k > 0 {
        lemma_linked_predecessor(contents, chain, n);
        let before = predecessor(contents, chain[n], false);
        assert(nth_back(contents, Some(chain[n]), false, k) == nth_back(
            contents,
            before,
            false,
            (k - 1) as nat,
        ));
        if n == 0 {
            lemma_nth_back_of_none(contents, false, (k - 1) as nat);
        } else {
            law_kth_step_on_linked_chain(contents, chain, n - 1, (k - 1) as nat);
        }
    }
}

proof fn lemma_linked_predecessor(
    contents: Map<Address, ChainHeader>,
    chain: Seq<ChainHeader>,
    n: int,
)
    requires
        linked_chain(contents, chain),
        0 <= n < chain.len(),
    ensures
        predecessor(contents, chain[n], false) == (if n == 0 {
            None
        } else {
            Some(chain[n - 1])
        }),
{
    assert(links_back(contents, chain, n));
    if n > 0 {
        assert(links_back(contents, chain, n - 1));
    }
}

proof fn lemma_nth_back_of_none(contents: Map<Address, ChainHeader>, same_type: bool, k: nat)
    ensures
        nth_back(contents, None, same_type, k) is None,
    decreases k,
{
    if k > 0 {
        lemma_nth_back_of_none(contents, same_type, (k - 1) as nat);
    }
}

/// Every header is stored under its own address.
pub open spec fn content_addressed(contents: Map<Address, ChainHeader>) -> bool {
    forall|a: Address| contents.contains_key(a) ==> (#[trigger] contents[a]).spec_address() == a
}

/// Storage that is filled only by adding headers is content-addressed:
/// empty storage is, and adding a header keeps it so.
pub proof fn law_adding_keeps_content_addressed(
    contents: Map<Address, ChainHeader>,
    header: ChainHeader,
)
    ensures
        content_addressed(Map::<Address, ChainHeader>::empty()),
        content_addressed(contents) ==> content_addressed(stored(contents, header)),
{
}

/// Consecutive headers of a traversal are tied by the link that it
/// follows, and by nothing else: the link of each is set, and what is
/// stored under it is the next one. In content-addressed storage that
/// link is the next header's own address.
pub proof fn law_walk_follows_links(
    contents: Map<Address, ChainHeader>,
    current: Option<ChainHeader>,
    same_type: bool,
    fuel: nat,
    i: int,
)
    requires
        0 <= i,
        i + 1 < walk(contents, current, same_type, fuel).len(),
    ensures
        ({
            let w = walk(contents, current, same_type, fuel);
            &&& back_link(w[i], same_type) matches Some(a) && lookup(contents, a) == Some(w[i + 1])
            &&& content_addressed(contents) ==> back_link(w[i], same_type) == Some(
                w[i + 1].spec_address(),
            )
        }),
    decreases fuel,
{
    let h = current->0;
    let next = predecessor(contents, h, same_type);
    let rest = walk(contents, next, same_type, (fuel - 1) as nat);
    assert(walk(contents, current, same_type, fuel) == seq![h] + rest);
    if i == 0 {
        assert(rest.len() > 0);
        assert(rest[0] == next->0);
        let a = back_link(h, same_type)->0;
        assert(contents.contains_key(a) && contents[a] == next->0);
    } else {
        law_walk_follows_links(contents, next, same_type, (fuel - 1) as nat, i - 1);
        assert((seq![h] + rest)[i] == rest[i - 1]);
        assert((seq![h] + rest)[i + 1] == rest[i]);
    }
}

/// The last header of a traversal that has ended has no link to follow,
/// or nothing is stored under its link.
pub proof fn law_walk_ends_at_open_link(
    contents: Map<Address, ChainHeader>,
    current: Option<ChainHeader>,
    same_type: bool,
    fuel: nat,
)
    requires
        ends_within(contents, current, same_type, fuel),
        current is Some,
    ensures
        walk(contents, current, same_type, fuel).len() > 0,
        predecessor(contents, walk(contents, current, same_type, fuel).last(), same_type) is None,
    decreases fuel,
{
    let h = current->0;
    let next = predecessor(contents, h, same_type);
    let rest = walk(contents, next, same_type, (fuel - 1) as nat);
    assert(walk(contents, current, same_type, fuel) == seq![h] + rest);
    if next is Some {
        law_walk_ends_at_open_link(contents, next, same_type, (fuel - 1) as nat);
        assert((seq![h] + rest).last() == rest.last());
    } else {
        assert(rest.len() == 0);
        assert((seq![h] + rest).last() == h);
    }
}

/// A fault of the storage is never taken for the end of a chain. When
/// the storage faults on the link of the header handed out, the cursor
/// keeps the fault and the next step hands it out, and only then does
/// the traversal end; when the storage finds nothing under the link,
/// the traversal ends at once and the next step hands out nothing.
pub proof fn law_fault_is_handed_out(
    header: ChainHeader,
    fault: StorageFault,
    later: Result<Option<ChainHeader>, StorageFault>,
)
    ensures
        handed_by_step(Cursor::At(header)) == Some(Ok::<ChainHeader, StorageFault>(header)),
        cursor_after_step(
            Cursor::At(header),
            Err::<Option<ChainHeader>, StorageFault>(fault),
        ) == Cursor::Faulted(fault),
        handed_by_step(Cursor::Faulted(fault)) == Some(Err::<ChainHeader, StorageFault>(fault)),
        cursor_after_step(Cursor::Faulted(fault), later) is Done,
        cursor_after_step(Cursor::At(header), Ok::<Option<ChainHeader>, StorageFault>(None)) is Done,
        handed_by_step(Cursor::Done) is None,
        cursor_after_step(Cursor::Done, later) is Done,
{
}

/// A header added to storage is fetched from then on, under its own
/// address, and nothing that was stored is lost or changed.
pub proof fn law_added_header_is_stored(contents: Map<Address, ChainHeader>, header: ChainHeader)
    ensures
        lookup(stored(contents, header), header.spec_address()) is Some,
        !contents.contains_key(header.spec_address()) ==> lookup(
            stored(contents, header),
            header.spec_address(),
        ) == Some(header),
        forall|a: Address| #[trigger]
            contents.contains_key(a) ==> lookup(stored(contents, header), a) == lookup(contents, a),
{
}

/// A chain grows by prepending: when a header whose link is the address
/// of the newest header of a linked chain (or empty, for the first) is
/// added under a free address, the longer chain is linked too, so the
/// traversal from the new header walks all of it.
pub proof fn law_prepending_keeps_chain_linked(
    contents: Map<Address, ChainHeader>,
    chain: Seq<ChainHeader>,
    header: ChainHeader,
)
    requires
        linked_chain(contents, chain),
        !contents.contains_key(header.spec_address()),
        header.link == (if chain.len() == 0 {
            None
        } else {
            Some(chain.last().spec_address())
        }),
    ensures
        linked_chain(stored(contents, header), chain.push(header)),
        path(stored(contents, header), Some(header), false) == newest_first(
            chain.push(header),
            chain.len() as int,
        ),
{
    let grown = chain.push(header);
    let after = stored(contents, header);
    assert forall|i: int| 0 <= i < grown.len() implies #[trigger] links_back(after, grown, i) by {
        if i < chain.len() {
            assert(links_back(contents, chain, i));
            assert(grown[i] == chain[i]);
            if i > 0 {
                assert(grown[i - 1] == chain[i - 1]);
            }
        } else {
            assert(grown[i] == header);
            if i > 0 {
                assert(grown[i - 1] == chain.last());
            }
        }
    }
    law_iter_walks_to_root(after, grown, chain.len() as int);
}

} // verus!
