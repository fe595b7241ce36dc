//! The admin command handler: privileged mutation of the registry. Only the
//! decisions live here; the surrounding process checks that the sender is the
//! configured admin and renders the replies.
use vstd::prelude::*;
use crate::db::{DB, Downloads, UserDataV, v_contains, v_idx};

verus! {

/// Whether `b` is a decimal digit.
pub open spec fn is_digit(b: u8) -> bool {
    48 <= b && b <= 57
}

/// Whether `s` is all decimal digits.
pub open spec fn all_digits(s: Seq<u8>) -> bool {
    forall|i: int| 0 <= i < s.len() ==> is_digit(#[trigger] s[i])
}

/// The decimal value of a digit string.
pub open spec fn dec_val(s: Seq<u8>) -> int
    decreases s.len(),
{
    if s.len() == 0 {
        0
    } else {
        dec_val(s.drop_last()) * 10 + (s.last() - 48)
    }
}

/// Powers of ten.
pub open spec fn pow10(n: nat) -> int
    decreases n,
{
    if n == 0 {
        1
    } else {
        10 * pow10((n - 1) as nat)
    }
}

proof fn lemma_pow10_pos(n: nat)
    ensures
        pow10(n) >= 1,
    decreases n,
{
    if n > 0 {
        lemma_pow10_pos((n - 1) as nat);
    }
}

proof fn lemma_pow10_mono(a: nat, b: nat)
    requires
        a <= b,
    ensures
        pow10(a) <= pow10(b),
    decreases b,
{
    if a < b {
        lemma_pow10_mono(a, (b - 1) as nat);
        lemma_pow10_pos((b - 1) as nat);
    }
}

/// A digit string's value is nonnegative and below ten to its length.
proof fn lemma_dec_val_bound(s: Seq<u8>)
    requires
        all_digits(s),
    ensures
        0 <= dec_val(s) < pow10(s.len()),
    decreases s.len(),
{
    if s.len() > 0 {
        assert(all_digits(s.drop_last())) by {
            assert(forall|i: int|
                0 <= i < s.len() - 1 ==> s.drop_last()[i] == #[trigger] s[i]);
        }
        lemma_dec_val_bound(s.drop_last());
    }
}

proof fn lemma_pow10_19()
    ensures
        pow10(19) == 10000000000000000000,
{
    reveal_with_fuel(pow10, 20);
}

/// Reads a numeric user id: one to nineteen decimal digits. Anything else
/// (empty, a stray character, an over-long number) is rejected.
pub fn parse_user_id(s: &Vec<u8>) -> (r: Option<u64>)
    ensures
        match r {
            Some(n) => 1 <= s@.len() <= 19 && all_digits(s@) && n == dec_val(s@),
            None => !(1 <= s@.len() <= 19 && all_digits(s@)),
        },
{
    let len = s.len();
    if len == 0 || len > 19 {
        return None;
    }
    let mut acc: u64 = 0;
    let mut i: usize = 0;
    while i < len
        invariant
            len == s@.len(),
            1 <= len <= 19,
            i <= len,
            all_digits(s@.take(i as int)),
            acc == dec_val(s@.take(i as int)),
        decreases len - i,
    {
        let b = s[i];
        if b < 48 || b > 57 {
            return None;
        }
        proof {
            lemma_dec_val_bound(s@.take(i as int));
            lemma_pow10_mono(i as nat, 18);
            lemma_pow10_19();
            assert(pow10(18) * 10 == pow10(19));
            assert(acc < pow10(18));
        }
        acc = acc * 10 + ((b - 48) as u64);
        proof {
            assert(s@.take(i + 1).drop_last() =~= s@.take(i as int));
            assert(s@.take(i + 1).last() == s@[i as int]);
            assert(all_digits(s@.take(i + 1))) by {
                assert(forall|k: int|
                    0 <= k < i + 1 ==> s@.take(i + 1)[k] == #[trigger] s@[k]);
            }
        }
        i += 1;
    }
    proof {
        assert(s@.take(len as int) =~= s@);
    }
    Some(acc)
}

/// The outcome of an Add command.
#[derive(Clone, Copy, PartialEq, Eq, Structural, Debug)]
pub enum AddOutcome {
    /// The id is not numeric: report it, change nothing.
    InvalidId,
    /// The id is already allow-listed: silently change nothing.
    AlreadyPresent,
    /// A fresh record was appended; the registry should be persisted.
    Added,
}

/// The outcome of a Remove command.
#[derive(Clone, Copy, PartialEq, Eq, Structural, Debug)]
pub enum RemoveOutcome {
    /// The id is not numeric: report it, change nothing.
    InvalidId,
    /// The id is not allow-listed: silently change nothing.
    NotPresent,
    /// The record was deleted; the registry should be persisted.
    Removed,
}

/// Whether a textual id is a well-formed numeric id.
pub open spec fn valid_id(s: Seq<u8>) -> bool {
    1 <= s.len() <= 19 && all_digits(s)
}

/// Grants `user_id` (textual, numeric) access under `alias`: validates the
/// id, no-ops if it is already present, else appends a fresh record.
pub fn add_user(db: &mut DB, user_id: &Vec<u8>, alias: Vec<u8>) -> (r: AddOutcome)
    requires
        old(db).wf(),
    ensures
        final(db).wf(),
        !valid_id(user_id@) ==> r == AddOutcome::InvalidId && final(db)@ == old(db)@,
        valid_id(user_id@) && v_contains(old(db)@, dec_val(user_id@) as u64) ==> r
            == AddOutcome::AlreadyPresent && final(db)@ == old(db)@,
        valid_id(user_id@) && !v_contains(old(db)@, dec_val(user_id@) as u64) ==> r
            == AddOutcome::Added && final(db)@ == old(db)@.push(
            (dec_val(user_id@) as u64, UserDataV {
                alias: alias@,
                downloads: Downloads { videos: 0, audios: 0 },
                url: None,
            }),
        ),
{
    let id = match parse_user_id(user_id) {
        Some(id) => id,
        None => {
            return AddOutcome::InvalidId;
        },
    };
    if db.contains(id) {
        AddOutcome::AlreadyPresent
    } else {
        db.add(id, alias);
        AddOutcome::Added
    }
}

/// Revokes the access of `user_id` (textual, numeric): validates the id,
/// no-ops if it is absent, else deletes the record.
pub fn remove_user(db: &mut DB, user_id: &Vec<u8>) -> (r: RemoveOutcome)
    requires
        old(db).wf(),
    ensures
        final(db).wf(),
        !valid_id(user_id@) ==> r == RemoveOutcome::InvalidId && final(db)@ == old(db)@,
        valid_id(user_id@) && !v_contains(old(db)@, dec_val(user_id@) as u64) ==> r
            == RemoveOutcome::NotPresent && final(db)@ == old(db)@,
        valid_id(user_id@) && v_contains(old(db)@, dec_val(user_id@) as u64) ==> r
            == RemoveOutcome::Removed && final(db)@ == old(db)@.remove(
            v_idx(old(db)@, dec_val(user_id@) as u64),
        ) && !v_contains(final(db)@, dec_val(user_id@) as u64),
{
    let id = match parse_user_id(user_id) {
        Some(id) => id,
        None => {
            return RemoveOutcome::InvalidId;
        },
    };
    if !db.contains(id) {
        RemoveOutcome::NotPresent
    } else {
        db.remove(id);
        RemoveOutcome::Removed
    }
}

/// A rendered listing decision: whether the registry is empty, and all
/// records as `(alias, id, counters)` in their stable order.
pub struct Listing {
    pub empty: bool,
    pub entries: Vec<(Vec<u8>, u64, Downloads)>,
}

/// Lists all records, or reports the registry empty.
pub fn list_users(db: &DB) -> (r: Listing)
    ensures
        r.empty == (db@.len() == 0),
        r.entries@.len() == db@.len(),
        forall|k: int|
            0 <= k < db@.len() ==> (#[trigger] r.entries@[k]).0@ == db@[k].1.alias
                && r.entries@[k].1 == db@[k].0 && r.entries@[k].2 == db@[k].1.downloads,
{
    let entries = db.list();
    let empty = entries.len() == 0;
    Listing { empty, entries }
}

/// The admin help text: the list of available commands.
pub fn print_help() -> (r: &'static str)
    ensures
        r@ == spec_help_text(),
{
    "Список доступных команд:\n/help — показать список команд\n/add — ({id} {alias}) дать пользователю доступ к боту\n/remove — ({id}) отобрать у пользователя доступ к боту\n/list — вывести список пользователей бота"
}

/// The exact admin help text.
pub open spec fn spec_help_text() -> Seq<char> {
    "Список доступных команд:\n/help — показать список команд\n/add — ({id} {alias}) дать пользователю доступ к боту\n/remove — ({id}) отобрать у пользователя доступ к боту\n/list — вывести список пользователей бота"@
}

} // verus!
