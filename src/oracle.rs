//! Oracle records: an entry list bound to one provider, stored in a record
//! whose byte size is fixed at creation from the provider's capacity.
use crate::account::Account;
use crate::address::{oracle_address, oracle_address_of, utf8_bytes, Address};
use crate::encoding::{encode_str, encode_u32, le_u32, str_bytes};
use crate::provider::Provider;
use vstd::prelude::*;

verus! {

/// Bytes reserved in an oracle record beyond its name.
pub const MAX_NAME_LENGTH: usize = 32;

/// Bytes reserved in an oracle record for each entry.
pub const DATA_SIZE: usize = 68;

/// One named value of an oracle.
#[derive(Clone, Debug, Default)]
pub struct OracleData {
    /// The name of the data.
    pub name: String,
    /// The value.
    pub value: String,
}

impl OracleData {
    /// Byte size of an entry slot: discriminator, name and value.
    pub fn space() -> (r: usize)
        ensures
            r == 8 + 32 + 32,
    {
        8 + 32 + 32
    }
}

/// An oracle record.
#[derive(Clone, Debug)]
pub struct Oracle {
    /// The program that owned the provider this oracle was bound to.
    pub provider_program: Address,
    /// The oracle's name; its first 32 bytes seed its address.
    pub name: String,
    /// The current entries.
    pub data: Vec<OracleData>,
    /// The disambiguation byte of the oracle's address.
    pub bump: u8,
}

/// Byte size allocated for an oracle with a name of `name_len` bytes under a
/// provider of capacity `size`: discriminator, provider program, name, name
/// reserve, one slot per entry, and bump.
pub open spec fn oracle_space(name_len: nat, size: nat) -> nat {
    8 + 32 + name_len + MAX_NAME_LENGTH as nat + size * DATA_SIZE as nat + 8
}

/// Encoded size of one entry: each string with its four-byte length.
pub open spec fn entry_len(e: OracleData) -> nat {
    4 + utf8_bytes(e.name@).len() + 4 + utf8_bytes(e.value@).len()
}

/// Encoded size of an entry list, without its length prefix.
pub open spec fn entries_len(s: Seq<OracleData>) -> nat
    decreases s.len(),
{
    if s.len() == 0 {
        0
    } else {
        entries_len(s.drop_last()) + entry_len(s.last())
    }
}

/// An entry list as stored, without its count.
pub open spec fn entries_bytes(s: Seq<OracleData>) -> Seq<u8>
    decreases s.len(),
{
    if s.len() == 0 {
        Seq::empty()
    } else {
        entries_bytes(s.drop_last()) + str_bytes(s.last().name@) + str_bytes(s.last().value@)
    }
}

/// An oracle record as stored after its eight-byte discriminator: provider
/// program, name, entry count, entries and bump.
pub open spec fn oracle_bytes(o: Oracle) -> Seq<u8> {
    o.provider_program@ + str_bytes(o.name@) + le_u32(o.data@.len()) + entries_bytes(o.data@)
        + seq![o.bump]
}

proof fn lemma_entries_bytes_len(s: Seq<OracleData>)
    ensures
        entries_bytes(s).len() == entries_len(s),
    decreases s.len(),
{
    if s.len() > 0 {
        lemma_entries_bytes_len(s.drop_last());
    }
}

proof fn lemma_entries_len_count(s: Seq<OracleData>)
    ensures
        s.len() <= entries_len(s),
    decreases s.len(),
{
    if s.len() > 0 {
        lemma_entries_len_count(s.drop_last());
    }
}

/// One more entry extends the stored prefix by its two strings, each of
/// which is no longer than the whole list's encoding.
proof fn lemma_entries_step(s: Seq<OracleData>, i: int)
    requires
        0 <= i < s.len(),
    ensures
        entries_bytes(s.subrange(0, i + 1)) == entries_bytes(s.subrange(0, i)) + str_bytes(
            s[i].name@,
        ) + str_bytes(s[i].value@),
        utf8_bytes(s[i].name@).len() <= entries_len(s),
        utf8_bytes(s[i].value@).len() <= entries_len(s),
{
    lemma_entries_len_prefix(s, i + 1, s.len() as int);
    assert(s.subrange(0, s.len() as int) =~= s);
    assert(s.subrange(0, i + 1).drop_last() =~= s.subrange(0, i));
    assert(s.subrange(0, i + 1).last() == s[i]);
}

/// Encoded size of an oracle record with this name and these entries:
/// discriminator, provider program, name with its length, entries with
/// their count, and bump.
pub open spec fn record_len(name: Seq<char>, entries: Seq<OracleData>) -> nat {
    8 + 32 + 4 + utf8_bytes(name).len() + 4 + entries_len(entries) + 1
}

/// Whether every entry's name and value is at most `MAX_NAME_LENGTH` bytes.
pub open spec fn entries_bounded(s: Seq<OracleData>) -> bool {
    forall|i: int|
        0 <= i < s.len() ==> utf8_bytes(#[trigger] s[i].name@).len() <= MAX_NAME_LENGTH
            && utf8_bytes(s[i].value@).len() <= MAX_NAME_LENGTH
}

/// Whether an entry list may be stored under a provider of capacity
/// `capacity` in a record of `space` bytes: no more entries than the capacity,
/// and an encoding that fits the record.
///
/// An entry of two `MAX_NAME_LENGTH`-byte strings encodes into 72 bytes, more
/// than its `DATA_SIZE`-byte slot; the record's spare name reserve makes up
/// for that up to a capacity of 7 (see `lemma_bounded_entries_fit`). Above
/// that, a list of such entries that fills the capacity does not fit the
/// record and is rejected rather than written past its end.
pub open spec fn fits(capacity: u32, space: usize, name: Seq<char>, entries: Seq<OracleData>) -> bool {
    entries.len() <= capacity && record_len(name, entries) <= space
}

proof fn lemma_entries_len_prefix(s: Seq<OracleData>, i: int, j: int)
    requires
        0 <= i <= j <= s.len(),
    ensures
        entries_len(s.subrange(0, i)) <= entries_len(s.subrange(0, j)),
    decreases j - i,
{
    if i < j {
        lemma_entries_len_prefix(s, i, j - 1);
        assert(s.subrange(0, j).drop_last() =~= s.subrange(0, j - 1));
    }
}

/// Entries that are accepted are stored whole: the encoding of a record that
/// holds them, with its discriminator, fits in the bytes allocated for it.
pub proof fn lemma_accepted_entries_fit(capacity: u32, space: usize, o: Oracle)
    requires
        fits(capacity, space, o.name@, o.data@),
    ensures
        8 + oracle_bytes(o).len() <= space,
{
    lemma_entries_bytes_len(o.data@);
    assert(o.provider_program@.len() == 32);
}

proof fn lemma_bounded_entries_len(s: Seq<OracleData>)
    requires
        entries_bounded(s),
    ensures
        entries_len(s) <= 72 * s.len(),
    decreases s.len(),
{
    if s.len() > 0 {
        let t = s.drop_last();
        assert forall|i: int| 0 <= i < t.len() implies utf8_bytes(#[trigger] t[i].name@).len()
            <= MAX_NAME_LENGTH && utf8_bytes(t[i].value@).len() <= MAX_NAME_LENGTH by {
            assert(t[i] == s[i]);
        }
        lemma_bounded_entries_len(t);
        assert(s.last() == s[s.len() - 1]);
    }
}

/// In a record sized for capacity at most 7, any list of at most that many
/// entries whose names and values are at most `MAX_NAME_LENGTH` bytes fits.
pub proof fn lemma_bounded_entries_fit(name: Seq<char>, capacity: u32, entries: Seq<OracleData>)
    requires
        capacity <= 7,
        entries.len() <= capacity,
        entries_bounded(entries),
        oracle_space(utf8_bytes(name).len(), capacity as nat) <= usize::MAX,
    ensures
        fits(
            capacity,
            oracle_space(utf8_bytes(name).len(), capacity as nat) as usize,
            name,
            entries,
        ),
{
    lemma_bounded_entries_len(entries);
}

/// Whether every entry's name and value is at most `MAX_NAME_LENGTH` bytes.
fn check_entries_bounded(entries: &Vec<OracleData>) -> (r: bool)
    ensures
        r == entries_bounded(entries@),
{
    let mut i: usize = 0;
    while i < entries.len()
        invariant
            0 <= i <= entries@.len(),
            forall|j: int|
                0 <= j < i ==> utf8_bytes((#[trigger] entries@[j]).name@).len() <= MAX_NAME_LENGTH
                    && utf8_bytes(entries@[j].value@).len() <= MAX_NAME_LENGTH,
        decreases entries@.len() - i,
    {
        let e = &entries[i];
        if e.name.as_str().as_bytes().len() > MAX_NAME_LENGTH
            || e.value.as_str().as_bytes().len() > MAX_NAME_LENGTH {
            proof {
                assert(utf8_bytes(entries@[i as int].name@).len() > MAX_NAME_LENGTH || utf8_bytes(
                    entries@[i as int].value@,
                ).len() > MAX_NAME_LENGTH);
            }
            return false;
        }
        i = i + 1;
    }
    true
}

/// Whether the record of this name and these entries fits in `space` bytes.
fn record_fits(name: &String, entries: &Vec<OracleData>, space: usize) -> (r: bool)
    ensures
        r == (record_len(name@, entries@) <= space),
{
    let head: usize = 8 + 32 + 4 + 4 + 1;
    let n = name.as_str().as_bytes().len();
    if n > space || head > space - n {
        return false;
    }
    let mut total: usize = head + n;
    let mut i: usize = 0;
    while i < entries.len()
        invariant
            0 <= i <= entries@.len(),
            n == utf8_bytes(name@).len(),
            total <= space,
            total == 8 + 32 + 4 + n + 4 + entries_len(entries@.subrange(0, i as int)) + 1,
        decreases entries@.len() - i,
    {
        let e = &entries[i];
        let a = e.name.as_str().as_bytes().len();
        let b = e.value.as_str().as_bytes().len();
        proof {
            assert(entries@.subrange(0, i + 1).drop_last() =~= entries@.subrange(0, i as int));
            assert(entries@.subrange(0, i + 1).last() == entries@[i as int]);
            lemma_entries_len_prefix(entries@, i + 1, entries@.len() as int);
            assert(entries@.subrange(0, entries@.len() as int) =~= entries@);
        }
        if a > space - total || 8 > space - total - a || b > space - total - a - 8 {
            return false;
        }
        total = total + 8 + a + b;
        i = i + 1;
    }
    proof {
        assert(entries@.subrange(0, i as int) =~= entries@);
    }
    true
}

impl Oracle {
    /// The record as stored after its discriminator; with the discriminator
    /// it takes `record_len` bytes.
    pub fn to_bytes(&self) -> (r: Vec<u8>)
        requires
            record_len(self.name@, self.data@) <= u32::MAX,
        ensures
            r@ == oracle_bytes(*self),
            8 + r@.len() == record_len(self.name@, self.data@),
    {
        let mut out = self.provider_program.to_vec();
        let mut name = encode_str(&self.name);
        out.append(&mut name);
        proof {
            lemma_entries_len_count(self.data@);
        }
        let mut count = encode_u32(self.data.len() as u32);
        out.append(&mut count);
        let ghost head = out@;
        let mut i: usize = 0;
        while i < self.data.len()
            invariant
                0 <= i <= self.data@.len(),
                record_len(self.name@, self.data@) <= u32::MAX,
                out@ == head + entries_bytes(self.data@.subrange(0, i as int)),
            decreases self.data@.len() - i,
        {
            proof {
                lemma_entries_step(self.data@, i as int);
            }
            let mut n = encode_str(&self.data[i].name);
            out.append(&mut n);
            let mut v = encode_str(&self.data[i].value);
            out.append(&mut v);
            proof {
                assert(out@ =~= head + entries_bytes(self.data@.subrange(0, i + 1)));
            }
            i = i + 1;
        }
        out.push(self.bump);
        proof {
            assert(self.data@.subrange(0, i as int) =~= self.data@);
            lemma_entries_bytes_len(self.data@);
            assert(out@ =~= oracle_bytes(*self));
        }
        out
    }

    pub fn space(name: &str, size: &u32) -> (r: usize)
        requires
            oracle_space(utf8_bytes(name@).len(), *size as nat) <= usize::MAX,
        ensures
            r == oracle_space(utf8_bytes(name@).len(), *size as nat),
    {
        8 + 32 + name.len() + MAX_NAME_LENGTH + (*size as usize) * DATA_SIZE + 8
    }
}

/// Why creating or updating an oracle failed.
#[derive(Clone, Copy, Debug, PartialEq, Eq, Structural)]
pub enum ErrorCode {
    /// The target address already holds a record.
    OracleAlreadyInitialized,
    /// The signer is not the provider's authority, or the provider is not
    /// owned by the expected program.
    OracleUnauthorizedUser,
    /// The target address is not the one derived from the provider, name and bump.
    OracleSeedsMismatch,
    /// The entries exceed the provider's capacity or the record's byte size.
    OracleCapacityExceeded,
    /// An entry's name or value is longer than `MAX_NAME_LENGTH` bytes.
    OracleEntryTooLong,
}

/// The accounts that creating an oracle involves.
#[derive(Clone, Debug)]
pub struct Initialize {
    /// The oracle program's own identity.
    pub program_id: Address,
    /// The identity of the provider program that provider records must belong to.
    pub provider_program_id: Address,
    /// The address at which the new oracle record is to be created.
    pub oracle: Address,
    /// Whether that address already holds a record.
    pub oracle_in_use: bool,
    /// The provider the oracle binds to.
    pub oracle_provider: Account<Provider>,
    /// The signer who pays for the record.
    pub user: Address,
}

/// Whether the signer may write under the provider, and the provider belongs
/// to the expected program.
pub open spec fn init_authorized(ctx: Initialize) -> bool {
    &&& ctx.oracle_provider.owner == ctx.provider_program_id
    &&& ctx.oracle_provider.data.authority == ctx.user
}

/// Whether the accounts name the address derived from the provider, `name` and `bump`.
pub open spec fn seeds_match(ctx: Initialize, name: Seq<char>, bump: u8) -> bool {
    oracle_address_of(ctx.oracle_provider.key@, utf8_bytes(name), bump, ctx.program_id@) == Some(
        ctx.oracle@,
    )
}

/// The byte size an oracle of this name gets under the provider of `ctx`.
pub open spec fn init_space(ctx: Initialize, name: Seq<char>) -> nat {
    oracle_space(utf8_bytes(name).len(), ctx.oracle_provider.data.data_size as nat)
}

/// Creates an oracle record bound to the provider of `ctx`, sized for the
/// provider's full capacity.
pub fn initialize(ctx: &Initialize, name: String, data: Vec<OracleData>, bump: u8) -> (r: Result<
    Account<Oracle>,
    ErrorCode,
>)
    requires
        init_space(*ctx, name@) <= usize::MAX,
    ensures
        !init_authorized(*ctx) ==> r == Err::<Account<Oracle>, ErrorCode>(
            ErrorCode::OracleUnauthorizedUser,
        ),
        init_authorized(*ctx) && !seeds_match(*ctx, name@, bump) ==> r == Err::<
            Account<Oracle>,
            ErrorCode,
        >(ErrorCode::OracleSeedsMismatch),
        init_authorized(*ctx) && seeds_match(*ctx, name@, bump) && ctx.oracle_in_use ==> r
            == Err::<Account<Oracle>, ErrorCode>(ErrorCode::OracleAlreadyInitialized),
        init_authorized(*ctx) && seeds_match(*ctx, name@, bump) && !ctx.oracle_in_use
            && !entries_bounded(data@) ==> r == Err::<Account<Oracle>, ErrorCode>(
            ErrorCode::OracleEntryTooLong,
        ),
        init_authorized(*ctx) && seeds_match(*ctx, name@, bump) && !ctx.oracle_in_use
            && entries_bounded(data@) && !fits(
            ctx.oracle_provider.data.data_size,
            init_space(*ctx, name@) as usize,
            name@,
            data@,
        ) ==> r == Err::<Account<Oracle>, ErrorCode>(ErrorCode::OracleCapacityExceeded),
        r is Ok <==> init_authorized(*ctx) && seeds_match(*ctx, name@, bump) && !ctx.oracle_in_use
            && entries_bounded(data@) && fits(
            ctx.oracle_provider.data.data_size,
            init_space(*ctx, name@) as usize,
            name@,
            data@,
        ),
        r is Ok ==> {
            let a = r->Ok_0;
            &&& a.key == ctx.oracle
            &&& a.owner == ctx.program_id
            &&& a.space == init_space(*ctx, name@)
            &&& a.data.provider_program == ctx.oracle_provider.owner
            &&& a.data.name@ == name@
            &&& a.data.data@ == data@
            &&& a.data.bump == bump
        },
{
    let provider = &ctx.oracle_provider;
    if !provider.owner.same_as(&ctx.provider_program_id) || !provider.data.authority.same_as(
        &ctx.user,
    ) {
        return Err(ErrorCode::OracleUnauthorizedUser);
    }
    let matches = match oracle_address(&provider.key, name.as_str(), bump, &ctx.program_id) {
        Some(a) => a.same_as(&ctx.oracle),
        None => false,
    };
    if !matches {
        return Err(ErrorCode::OracleSeedsMismatch);
    }
    if ctx.oracle_in_use {
        return Err(ErrorCode::OracleAlreadyInitialized);
    }
    if !check_entries_bounded(&data) {
        return Err(ErrorCode::OracleEntryTooLong);
    }
    let space = Oracle::space(name.as_str(), &provider.data.data_size);
    if data.len() > provider.data.data_size as usize || !record_fits(&name, &data, space) {
        return Err(ErrorCode::OracleCapacityExceeded);
    }
    let oracle = Oracle { provider_program: provider.owner, name, data, bump };
    Ok(Account { key: ctx.oracle, owner: ctx.program_id, space, data: oracle })
}

/// The accounts that updating an oracle involves.
#[derive(Clone, Debug)]
pub struct Update {
    /// The oracle to update.
    pub oracle: Account<Oracle>,
    /// The provider the oracle is bound to.
    pub provider: Account<Provider>,
    /// The signer.
    pub user: Address,
}

/// Whether the oracle was created under this provider: its address is the
/// one derived from the provider's address, its name and its bump under the
/// program that owns it.
pub open spec fn bound_to(oracle: Account<Oracle>, provider: Account<Provider>) -> bool {
    oracle_address_of(
        provider.key@,
        utf8_bytes(oracle.data.name@),
        oracle.data.bump,
        oracle.owner@,
    ) == Some(oracle.key@)
}

/// Whether the signer may update the oracle through this provider: the
/// signer is the provider's authority, the provider belongs to the program
/// the oracle was bound under, and the oracle is bound to this provider.
pub open spec fn update_authorized(ctx: Update) -> bool {
    &&& ctx.provider.data.authority == ctx.user
    &&& ctx.provider.owner == ctx.oracle.data.provider_program
    &&& bound_to(ctx.oracle, ctx.provider)
}

/// What every update keeps of an oracle record: where it lives, who owns it,
/// its byte size, its binding, its name and its bump.
pub open spec fn keeps_record(before: Account<Oracle>, after: Account<Oracle>) -> bool {
    &&& after.key == before.key
    &&& after.owner == before.owner
    &&& after.space == before.space
    &&& after.data.provider_program == before.data.provider_program
    &&& after.data.name == before.data.name
    &&& after.data.bump == before.data.bump
}

/// However many updates follow one another, an oracle record keeps the byte
/// size it was created with, and its address, owner, binding, name and bump.
pub proof fn lemma_record_fixed_across_updates(history: Seq<Account<Oracle>>)
    requires
        history.len() > 0,
        forall|i: int|
            0 <= i < history.len() - 1 ==> #[trigger] keeps_record(history[i], history[i + 1]),
    ensures
        forall|i: int| 0 <= i < history.len() ==> keeps_record(history[0], #[trigger] history[i]),
        history.last().space == history[0].space,
    decreases history.len(),
{
    if history.len() > 1 {
        let front = history.drop_last();
        assert forall|i: int| 0 <= i < front.len() - 1 implies #[trigger] keeps_record(
            front[i],
            front[i + 1],
        ) by {
            assert(keeps_record(history[i], history[i + 1]));
        }
        lemma_record_fixed_across_updates(front);
        let k = history.len() - 2;
        assert(keeps_record(history[k], history[k + 1]));
        assert(keeps_record(history[0], front[k]));
        assert forall|i: int| 0 <= i < history.len() implies keeps_record(
            history[0],
            #[trigger] history[i],
        ) by {
            if i < front.len() {
                assert(keeps_record(front[0], front[i]));
            }
        }
    }
}

/// Replaces the oracle's entries with `data`, if the signer is the provider's
/// authority, the provider is the one the oracle is bound to, every entry's
/// strings are at most `MAX_NAME_LENGTH` bytes, and the entries fit the
/// provider's capacity and the record's byte size.
pub fn update(ctx: &mut Update, data: Vec<OracleData>) -> (r: Result<(), ErrorCode>)
    ensures
        !update_authorized(*old(ctx)) ==> r == Err::<(), ErrorCode>(
            ErrorCode::OracleUnauthorizedUser,
        ),
        update_authorized(*old(ctx)) && !entries_bounded(data@) ==> r == Err::<(), ErrorCode>(
            ErrorCode::OracleEntryTooLong,
        ),
        update_authorized(*old(ctx)) && entries_bounded(data@) && !fits(
            old(ctx).provider.data.data_size,
            old(ctx).oracle.space,
            old(ctx).oracle.data.name@,
            data@,
        ) ==> r == Err::<(), ErrorCode>(ErrorCode::OracleCapacityExceeded),
        r is Ok <==> update_authorized(*old(ctx)) && entries_bounded(data@) && fits(
            old(ctx).provider.data.data_size,
            old(ctx).oracle.space,
            old(ctx).oracle.data.name@,
            data@,
        ),
        r is Ok ==> final(ctx).oracle.data.data@ == data@,
        r is Err ==> *final(ctx) == *old(ctx),
        keeps_record(old(ctx).oracle, final(ctx).oracle),
        final(ctx).provider == old(ctx).provider,
        final(ctx).user == old(ctx).user,
{
    if !ctx.provider.data.authority.same_as(&ctx.user) || !ctx.provider.owner.same_as(
        &ctx.oracle.data.provider_program,
    ) {
        return Err(ErrorCode::OracleUnauthorizedUser);
    }
    let bound = match oracle_address(
        &ctx.provider.key,
        ctx.oracle.data.name.as_str(),
        ctx.oracle.data.bump,
        &ctx.oracle.owner,
    ) {
        Some(a) => a.same_as(&ctx.oracle.key),
        None => false,
    };
    if !bound {
        return Err(ErrorCode::OracleUnauthorizedUser);
    }
    if !check_entries_bounded(&data) {
        return Err(ErrorCode::OracleEntryTooLong);
    }
    if data.len() > ctx.provider.data.data_size as usize || !record_fits(
        &ctx.oracle.data.name,
        &data,
        ctx.oracle.space,
    ) {
        return Err(ErrorCode::OracleCapacityExceeded);
    }
    ctx.oracle.data.data = data;
    Ok(())
}

} // verus!
