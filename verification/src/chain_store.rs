//! Walking a chain backward through content-addressable storage.

use vstd::prelude::*;
use crate::address::Address;
use crate::chain_header::ChainHeader;
use crate::entry::EntryType;
use crate::storage::{ContentAddressableStorage, StorageFault, lookup, stored};

verus! {

/// Where a traversal stands.
#[derive(Debug, PartialEq, Eq)]
pub enum Cursor {
    /// The header that the next step hands out.
    At(ChainHeader),
    /// The storage faulted; the next step hands the fault out.
    Faulted(StorageFault),
    /// Nothing is left.
    Done,
}

/// The cursor that stands at `current`, or at the end if there is none.
pub open spec fn cursor_of(current: Option<ChainHeader>) -> Cursor {
    match current {
        Some(h) => Cursor::At(h),
        None => Cursor::Done,
    }
}

/// The header that a cursor stands at, if any.
pub open spec fn header_of(cursor: Cursor) -> Option<ChainHeader> {
    match cursor {
        Cursor::At(h) => Some(h),
        _ => None,
    }
}

/// The link that a traversal follows out of `header`: the link to the
/// latest earlier header of the same type, or the link to the header
/// just before it.
pub open spec fn back_link(header: ChainHeader, same_type: bool) -> Option<Address> {
    if same_type {
        header.link_same_type
    } else {
        header.link
    }
}

/// The header that follows `header` in a backward traversal: the one
/// stored under its link. There is none where the link is empty or
/// nothing is stored under it.
pub open spec fn predecessor(
    contents: Map<Address, ChainHeader>,
    header: ChainHeader,
    same_type: bool,
) -> Option<ChainHeader> {
    match back_link(header, same_type) {
        None => None,
        Some(a) => lookup(contents, a),
    }
}

/// The traversal from `current` ends after at most `fuel` headers.
pub open spec fn ends_within(
    contents: Map<Address, ChainHeader>,
    current: Option<ChainHeader>,
    same_type: bool,
    fuel: nat,
) -> bool
    decreases fuel,
{
    match current {
        None => true,
        Some(h) => fuel > 0 && ends_within(
            contents,
            predecessor(contents, h, same_type),
            same_type,
            (fuel - 1) as nat,
        ),
    }
}

/// The first `fuel` headers of the traversal from `current`.
pub open spec fn walk(
    contents: Map<Address, ChainHeader>,
    current: Option<ChainHeader>,
    same_type: bool,
    fuel: nat,
) -> Seq<ChainHeader>
    decreases fuel,
{
    match current {
        None => Seq::empty(),
        Some(h) => if fuel == 0 {
            Seq::empty()
        } else {
            seq![h] + walk(
                contents,
                predecessor(contents, h, same_type),
                same_type,
                (fuel - 1) as nat,
            )
        },
    }
}

/// The traversal from `current` ends: it runs into no cycle.
pub open spec fn finite(
    contents: Map<Address, ChainHeader>,
    current: Option<ChainHeader>,
    same_type: bool,
) -> bool {
    exists|n: nat| ends_within(contents, current, same_type, n)
}

/// A number of steps within which the traversal from `current` ends.
pub open spec fn depth(
    contents: Map<Address, ChainHeader>,
    current: Option<ChainHeader>,
    same_type: bool,
) -> nat {
    choose|n: nat| ends_within(contents, current, same_type, n)
}

/// All headers of the traversal from `current`, newest first.
pub open spec fn path(
    contents: Map<Address, ChainHeader>,
    current: Option<ChainHeader>,
    same_type: bool,
) -> Seq<ChainHeader> {
    walk(contents, current, same_type, depth(contents, current, same_type))
}

/// The first header of type `entry_type` among the first `fuel + 1`
/// headers of the chronological traversal from `current`.
pub open spec fn first_of_type(
    contents: Map<Address, ChainHeader>,
    current: Option<ChainHeader>,
    entry_type: EntryType,
    fuel: nat,
) -> Option<ChainHeader>
    decreases fuel,
{
    match current {
        None => None,
        Some(h) => if h.entry_type.same(&entry_type) {
            Some(h)
        } else if fuel == 0 {
            None
        } else {
            first_of_type(contents, predecessor(contents, h, false), entry_type, (fuel - 1) as nat)
        },
    }
}

/// The header at which a same-type traversal for `entry_type` starts:
/// the first of that type at or before `start`.
pub open spec fn anchor(
    contents: Map<Address, ChainHeader>,
    start: Option<ChainHeader>,
    entry_type: EntryType,
) -> Option<ChainHeader> {
    first_of_type(contents, start, entry_type, depth(contents, start, false))
}

/// The search for the first header of type `entry_type` from `start`
/// needs no answer of the storage: there is no start, the start is of
/// the type, or it has no link to follow.
pub open spec fn search_asks_nothing(start: Option<ChainHeader>, entry_type: EntryType) -> bool {
    match start {
        None => true,
        Some(h) => h.entry_type.same(&entry_type) || h.link is None,
    }
}

/// The cursor that an answer of the storage leads to: the header found,
/// the end where nothing is stored under the link, or the fault.
pub open spec fn cursor_for(fetched: Result<Option<ChainHeader>, StorageFault>) -> Cursor {
    match fetched {
        Ok(Some(h)) => Cursor::At(h),
        Ok(None) => Cursor::Done,
        Err(f) => Cursor::Faulted(f),
    }
}

/// What a step hands out: the header that the cursor stands at, the
/// fault that it holds, or nothing at the end.
pub open spec fn handed_by_step(before: Cursor) -> Option<Result<ChainHeader, StorageFault>> {
    match before {
        Cursor::At(h) => Some(Ok(h)),
        Cursor::Faulted(f) => Some(Err(f)),
        Cursor::Done => None,
    }
}

/// The cursor after a step, where `fetched` is what the storage answered
/// for the link of the header that was handed out. Only a step from a
/// header goes anywhere but to the end.
pub open spec fn cursor_after_step(
    before: Cursor,
    fetched: Result<Option<ChainHeader>, StorageFault>,
) -> Cursor {
    match before {
        Cursor::At(_) => cursor_for(fetched),
        _ => Cursor::Done,
    }
}

/// The link that a step from `cursor` follows, if any.
pub open spec fn link_at(cursor: Cursor, same_type: bool) -> Option<Address> {
    match cursor {
        Cursor::At(h) => back_link(h, same_type),
        _ => None,
    }
}

/// `fetched` is an answer that a storage with these contents can give
/// for `link`: without a link it is not asked, and the answer is "nothing
/// there"; with one, a successful answer is what is stored under it, and
/// a reliable storage answers successfully.
pub open spec fn answers(
    contents: Map<Address, ChainHeader>,
    reliable: bool,
    link: Option<Address>,
    fetched: Result<Option<ChainHeader>, StorageFault>,
) -> bool {
    match link {
        None => fetched == Ok::<Option<ChainHeader>, StorageFault>(None),
        Some(a) => {
            &&& fetched matches Ok(found) ==> found == lookup(contents, a)
            &&& reliable ==> fetched is Ok
        },
    }
}

/// The cursor after the storage has answered for the link of the header
/// that was handed out: at the header found, at the end where nothing is
/// stored under the link, or at the fault.
pub fn advance(fetched: Result<Option<ChainHeader>, StorageFault>) -> (c: Cursor)
    ensures
        c == cursor_for(fetched),
{
    match fetched {
        Ok(Some(h)) => Cursor::At(h),
        Ok(None) => Cursor::Done,
        Err(f) => Cursor::Faulted(f),
    }
}

/// Ask `storage` for the link that a step from `cursor` follows. Where
/// there is no such link the storage is not asked.
pub fn ask<CAS: ContentAddressableStorage>(storage: &CAS, cursor: &Cursor, same_type: bool) -> (fetched:
    Result<Option<ChainHeader>, StorageFault>)
    ensures
        answers(storage.headers(), storage.reliable(), link_at(*cursor, same_type), fetched),
{
    let link = match cursor {
        Cursor::At(h) => if same_type {
            h.link_same_type()
        } else {
            h.link()
        },
        _ => None,
    };
    match link {
        None => Ok(None),
        Some(a) => storage.fetch(&a),
    }
}

/// One step of a traversal, given what the storage answered for the
/// link of the header that the cursor stands at. A header is handed out
/// and the answer decides where the cursor goes: a fault is kept, and
/// the next step hands it out. A cursor that holds a fault hands it out
/// and ends; a cursor at the end stays there.
pub fn step_with(cursor: &mut Cursor, fetched: Result<Option<ChainHeader>, StorageFault>) -> (r:
    Option<Result<ChainHeader, StorageFault>>)
    ensures
        r == handed_by_step(*old(cursor)),
        *final(cursor) == cursor_after_step(*old(cursor), fetched),
{
    let mut taken = Cursor::Done;
    std::mem::swap(cursor, &mut taken);
    match taken {
        Cursor::Done => None,
        Cursor::Faulted(f) => Some(Err(f)),
        Cursor::At(h) => {
            *cursor = advance(fetched);
            Some(Ok(h))
        },
    }
}

/// What one step of a traversal does to its cursor, and what it hands out.
pub open spec fn step_spec(
    contents: Map<Address, ChainHeader>,
    reliable: bool,
    same_type: bool,
    before: Cursor,
    after: Cursor,
    handed: Option<Result<ChainHeader, StorageFault>>,
) -> bool {
    match before {
        Cursor::Done => handed is None && after is Done,
        Cursor::Faulted(f) => handed == Some(Err::<ChainHeader, StorageFault>(f)) && after is Done,
        Cursor::At(h) => {
            &&& handed == Some(Ok::<ChainHeader, StorageFault>(h))
            &&& after is Faulted || after == cursor_of(predecessor(contents, h, same_type))
            &&& back_link(h, same_type) is None || reliable ==> !(after is Faulted)
        },
    }
}

/// A step is what `step_with` makes of some answer that the storage can
/// give for the link at the cursor: whatever the storage answered, a
/// fault included, shows in the cursor exactly.
pub open spec fn step_follows_answer(
    contents: Map<Address, ChainHeader>,
    reliable: bool,
    same_type: bool,
    before: Cursor,
    after: Cursor,
    handed: Option<Result<ChainHeader, StorageFault>>,
) -> bool {
    exists|fetched: Result<Option<ChainHeader>, StorageFault>|
        {
            &&& #[trigger] answers(contents, reliable, link_at(before, same_type), fetched)
            &&& handed == handed_by_step(before)
            &&& after == cursor_after_step(before, fetched)
        }
}

/// What draining a traversal returns.
pub open spec fn drain_spec(
    contents: Map<Address, ChainHeader>,
    reliable: bool,
    same_type: bool,
    before: Cursor,
    result: Result<Vec<ChainHeader>, StorageFault>,
) -> bool {
    &&& result matches Ok(v) ==> !(before is Faulted) && v@ == path(
        contents,
        header_of(before),
        same_type,
    )
    &&& before matches Cursor::Faulted(f) ==> result == Err::<Vec<ChainHeader>, StorageFault>(f)
    &&& reliable && !(before is Faulted) ==> result is Ok
    &&& asks_nothing(before, same_type) ==> result is Ok
}

/// Draining from `before` never asks the storage: there is nothing to
/// hand out, or one header without a link to follow.
pub open spec fn asks_nothing(before: Cursor, same_type: bool) -> bool {
    match before {
        Cursor::Done => true,
        Cursor::At(h) => back_link(h, same_type) is None,
        Cursor::Faulted(_) => false,
    }
}

fn step<CAS: ContentAddressableStorage>(storage: &CAS, cursor: &mut Cursor, same_type: bool) -> (r:
    Option<Result<ChainHeader, StorageFault>>)
    ensures
        step_spec(storage.headers(), storage.reliable(), same_type, *old(cursor), *final(cursor), r),
        step_follows_answer(
            storage.headers(),
            storage.reliable(),
            same_type,
            *old(cursor),
            *final(cursor),
            r,
        ),
{
    let fetched = ask(storage, cursor, same_type);
    let ghost answer = fetched;
    let handed = step_with(cursor, fetched);
    proof {
        assert(answers(
            storage.headers(),
            storage.reliable(),
            link_at(*old(cursor), same_type),
            answer,
        ));
    }
    handed
}

fn drain<CAS: ContentAddressableStorage>(storage: &CAS, cursor: &mut Cursor, same_type: bool) -> (r:
    Result<Vec<ChainHeader>, StorageFault>)
    requires
        finite(storage.headers(), header_of(*old(cursor)), same_type),
    ensures
        drain_spec(storage.headers(), storage.reliable(), same_type, *old(cursor), r),
        *final(cursor) is Done,
{
    let ghost contents = storage.headers();
    let ghost start = header_of(*cursor);
    let ghost total = depth(contents, start, same_type);
    let ghost mut fuel: nat = total;
    let ghost mut faulted: bool = *cursor is Faulted;
    let mut out: Vec<ChainHeader> = Vec::new();
    loop
        invariant
            contents == storage.headers(),
            start == header_of(*old(cursor)),
            total == depth(contents, start, same_type),
            ends_within(contents, header_of(*cursor), same_type, fuel),
            faulted == (*cursor is Faulted),
            !faulted ==> !(*old(cursor) is Faulted),
            !faulted ==> out@ + walk(contents, header_of(*cursor), same_type, fuel) == walk(
                contents,
                start,
                same_type,
                total,
            ),
            faulted && *old(cursor) is Faulted ==> *cursor == *old(cursor),
            storage.reliable() && !(*old(cursor) is Faulted) ==> !faulted,
            asks_nothing(*old(cursor), same_type) ==> *cursor == *old(cursor) || *cursor is Done,
        decreases fuel,
    {
        let handed = step(storage, cursor, same_type);
        match handed {
            None => {
                return Ok(out);
            },
            Some(Err(f)) => {
                return Err(f);
            },
            Some(Ok(h)) => {
                proof {
                    let rest = walk(
                        contents,
                        predecessor(contents, h, same_type),
                        same_type,
                        (fuel - 1) as nat,
                    );
                    assert(out@.push(h) + rest =~= out@ + (seq![h] + rest));
                    fuel = (fuel - 1) as nat;
                    faulted = *cursor is Faulted;
                }
                out.push(h);
            },
        }
    }
}

/// A store of chain headers that hands out backward traversals.
pub struct ChainStore<CAS: ContentAddressableStorage> {
    content_storage: CAS,
}

impl<CAS: ContentAddressableStorage> ChainStore<CAS> {
    /// The storage that the store holds.
    pub closed spec fn storage(&self) -> CAS {
        self.content_storage
    }

    pub fn new(content_storage: CAS) -> (r: Self)
        ensures
            r.storage() == content_storage,
    {
        ChainStore { content_storage }
    }

    /// A shared handle to the storage, for reading.
    pub fn content_storage(&self) -> (r: &CAS)
        ensures
            *r == self.storage(),
    {
        &self.content_storage
    }

    /// Store `header` under its own address, so that traversals made
    /// from now on can reach it.
    pub fn add(&mut self, header: &ChainHeader) -> (r: Result<(), StorageFault>)
        ensures
            r is Ok ==> final(self).storage().headers() == stored(
                old(self).storage().headers(),
                *header,
            ),
            r is Err ==> final(self).storage().headers() == old(self).storage().headers(),
            final(self).storage().reliable() == old(self).storage().reliable(),
            old(self).storage().reliable() ==> r is Ok,
    {
        self.content_storage.add(header)
    }

    /// The traversal that starts at `start_chain_header` and follows each
    /// header's link to the one before it.
    pub fn iter<'a>(&'a self, start_chain_header: &Option<ChainHeader>) -> (it:
        ChainStoreIterator<'a, CAS>)
        ensures
            it.storage() == self.storage(),
            it.cursor() == cursor_of(*start_chain_header),
    {
        let current = match start_chain_header {
            Some(h) => Some(h.clone()),
            None => None,
        };
        ChainStoreIterator::new(&self.content_storage, current)
    }

    /// The traversal over the headers of type `entry_type`. It searches
    /// backward from `start_chain_header` for the first header of that
    /// type, and from there follows the same-type links. A fault met
    /// during the search is what the traversal hands out first.
    pub fn iter_type<'a>(
        &'a self,
        start_chain_header: &Option<ChainHeader>,
        entry_type: &EntryType,
    ) -> (it: ChainStoreTypeIterator<'a, CAS>)
        requires
            finite(self.storage().headers(), *start_chain_header, false),
        ensures
            it.storage() == self.storage(),
            it.cursor() is Faulted || it.cursor() == cursor_of(
                anchor(self.storage().headers(), *start_chain_header, *entry_type),
            ),
            self.storage().reliable() ==> !(it.cursor() is Faulted),
            search_asks_nothing(*start_chain_header, *entry_type) ==> !(it.cursor() is Faulted),
    {
        let ghost contents = self.content_storage.headers();
        let ghost mut fuel: nat = depth(contents, *start_chain_header, false);
        let mut search = self.iter(start_chain_header);
        loop
            invariant
                contents == self.storage().headers(),
                search.storage() == self.storage(),
                !(search.cursor() is Faulted) ==> ends_within(
                    contents,
                    header_of(search.cursor()),
                    false,
                    fuel,
                ),
                !(search.cursor() is Faulted) ==> first_of_type(
                    contents,
                    header_of(search.cursor()),
                    *entry_type,
                    fuel,
                ) == anchor(contents, *start_chain_header, *entry_type),
                self.storage().reliable() ==> !(search.cursor() is Faulted),
                search_asks_nothing(*start_chain_header, *entry_type) ==> search.cursor()
                    == cursor_of(*start_chain_header) || search.cursor() is Done,
            decreases fuel,
        {
            let handed = search.next();
            match handed {
                None => {
                    return ChainStoreTypeIterator::new(&self.content_storage, None);
                },
                Some(Err(f)) => {
                    return ChainStoreTypeIterator::faulted(&self.content_storage, f);
                },
                Some(Ok(h)) => {
                    if h.entry_type().matches(entry_type) {
                        return ChainStoreTypeIterator::new(&self.content_storage, Some(h));
                    }
                    proof {
                        fuel = (fuel - 1) as nat;
                    }
                },
            }
        }
    }
}

/// A traversal that follows each header's link to the header before it.
pub struct ChainStoreIterator<'a, CAS: ContentAddressableStorage> {
    content_storage: &'a CAS,
    cursor: Cursor,
}

impl<'a, CAS: ContentAddressableStorage> ChainStoreIterator<'a, CAS> {
    /// The storage that the traversal reads.
    pub closed spec fn storage(&self) -> CAS {
        *self.content_storage
    }

    /// Where the traversal stands.
    pub closed spec fn cursor(&self) -> Cursor {
        self.cursor
    }

    pub fn new(content_storage: &'a CAS, current: Option<ChainHeader>) -> (it: Self)
        ensures
            it.storage() == *content_storage,
            it.cursor() == cursor_of(current),
    {
        let cursor = match current {
            Some(h) => Cursor::At(h),
            None => Cursor::Done,
        };
        ChainStoreIterator { content_storage, cursor }
    }

    /// Hand out the header that the traversal stands at and move to the
    /// one that its link names. A fault of the storage is handed out by
    /// the step after the one during which it occurred, as the last item.
    pub fn next(&mut self) -> (r: Option<Result<ChainHeader, StorageFault>>)
        ensures
            final(self).storage() == old(self).storage(),
            step_spec(
                old(self).storage().headers(),
                old(self).storage().reliable(),
                false,
                old(self).cursor(),
                final(self).cursor(),
                r,
            ),
            step_follows_answer(
                old(self).storage().headers(),
                old(self).storage().reliable(),
                false,
                old(self).cursor(),
                final(self).cursor(),
                r,
            ),
    {
        step(self.content_storage, &mut self.cursor, false)
    }

    /// Run the traversal to its end and return its headers, newest
    /// first, or the fault that cut it short.
    pub fn collect(&mut self) -> (r: Result<Vec<ChainHeader>, StorageFault>)
        requires
            finite(old(self).storage().headers(), header_of(old(self).cursor()), false),
        ensures
            final(self).storage() == old(self).storage(),
            final(self).cursor() is Done,
            drain_spec(
                old(self).storage().headers(),
                old(self).storage().reliable(),
                false,
                old(self).cursor(),
                r,
            ),
    {
        drain(self.content_storage, &mut self.cursor, false)
    }
}

/// A traversal that follows each header's link to the latest earlier
/// header of the same type.
pub struct ChainStoreTypeIterator<'a, CAS: ContentAddressableStorage> {
    content_storage: &'a CAS,
    cursor: Cursor,
}

impl<'a, CAS: ContentAddressableStorage> ChainStoreTypeIterator<'a, CAS> {
    /// The storage that the traversal reads.
    pub closed spec fn storage(&self) -> CAS {
        *self.content_storage
    }

    /// Where the traversal stands.
    pub closed spec fn cursor(&self) -> Cursor {
        self.cursor
    }

    pub fn new(content_storage: &'a CAS, current: Option<ChainHeader>) -> (it: Self)
        ensures
            it.storage() == *content_storage,
            it.cursor() == cursor_of(current),
    {
        let cursor = match current {
            Some(h) => Cursor::At(h),
            None => Cursor::Done,
        };
        ChainStoreTypeIterator { content_storage, cursor }
    }

    /// A traversal that has nothing to hand out but `fault`.
    pub fn faulted(content_storage: &'a CAS, fault: StorageFault) -> (it: Self)
        ensures
            it.storage() == *content_storage,
            it.cursor() == Cursor::Faulted(fault),
    {
        ChainStoreTypeIterator { content_storage, cursor: Cursor::Faulted(fault) }
    }

    /// Hand out the header that the traversal stands at and move to the
    /// one that its same-type link names. A fault of the storage is
    /// handed out by the step after the one during which it occurred, as
    /// the last item.
    pub fn next(&mut self) -> (r: Option<Result<ChainHeader, StorageFault>>)
        ensures
            final(self).storage() == old(self).storage(),
            step_spec(
                old(self).storage().headers(),
                old(self).storage().reliable(),
                true,
                old(self).cursor(),
                final(self).cursor(),
                r,
            ),
            step_follows_answer(
                old(self).storage().headers(),
                old(self).storage().reliable(),
                true,
                old(self).cursor(),
                final(self).cursor(),
                r,
            ),
    {
        step(self.content_storage, &mut self.cursor, true)
    }

    /// Run the traversal to its end and return its headers, newest
    /// first, or the fault that cut it short.
    pub fn collect(&mut self) -> (r: Result<Vec<ChainHeader>, StorageFault>)
        requires
            finite(old(self).storage().headers(), header_of(old(self).cursor()), true),
        ensures
            final(self).storage() == old(self).storage(),
            final(self).cursor() is Done,
            drain_spec(
                old(self).storage().headers(),
                old(self).storage().reliable(),
                true,
                old(self).cursor(),
                r,
            ),
    {
        drain(self.content_storage, &mut self.cursor, true)
    }
}

} // verus!
