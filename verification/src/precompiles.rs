use crate::account::Account;
use crate::accounts_db::{account_written, is_enabled, marker_account, AccountsDbView};
use crate::error::SeashellError;
use crate::pubkey::{Pubkey, NATIVE_LOADER_ID};
use crate::seashell::Seashell;
use vstd::prelude::*;

verus! {

/// A program that the execution engine runs natively to check signatures,
/// and the feature that enables it, if it needs one.
#[derive(Clone, Copy, Debug)]
pub struct Precompile {
    pub program_id: Pubkey,
    pub feature: Option<Pubkey>,
}

/// The store after one precompile was considered: an enabled one gets its
/// marker account, a disabled one changes nothing. `None` where the marker
/// account cannot be written.
pub open spec fn precompile_loaded(db: AccountsDbView, precompile: Precompile, active: Set<Pubkey>)
    -> Option<AccountsDbView> {
    if is_enabled(precompile.feature, active) {
        account_written(db, precompile.program_id, marker_account())
    } else {
        Some(db)
    }
}

/// The store after the first `upto` of `precompiles` were considered in turn,
/// and whether all of them succeeded. Loading stops at the first that fails.
pub open spec fn precompiles_loaded(
    db: AccountsDbView,
    precompiles: Seq<Precompile>,
    active: Set<Pubkey>,
    upto: int,
) -> (AccountsDbView, bool)
    decreases upto,
{
    if upto <= 0 {
        (db, true)
    } else {
        let (before, ok) = precompiles_loaded(db, precompiles, active, upto - 1);
        if !ok {
            (before, false)
        } else {
            match precompile_loaded(before, precompiles[upto - 1], active) {
                Some(after) => (after, true),
                None => (before, false),
            }
        }
    }
}

/// Once a precompile has failed, the precompiles behind it change nothing.
proof fn lemma_precompiles_stay_failed(
    db: AccountsDbView,
    precompiles: Seq<Precompile>,
    active: Set<Pubkey>,
    failed: int,
    upto: int,
)
    requires
        0 < failed <= upto,
        !precompiles_loaded(db, precompiles, active, failed).1,
    ensures
        precompiles_loaded(db, precompiles, active, upto) == precompiles_loaded(
            db,
            precompiles,
            active,
            failed,
        ),
    decreases upto - failed,
{
    if failed < upto {
        lemma_precompiles_stay_failed(db, precompiles, active, failed, upto - 1);
    }
}

/// Gives each of `precompiles` that needs no feature, or whose feature is
/// active in the session, a marker account in the session's store. Loading
/// stops at the first marker account that cannot be written. Nothing but the
/// store changes.
pub fn load(seashell: &mut Seashell, precompiles: &[Precompile]) -> (done: Result<(), SeashellError>)
    ensures
        final(seashell).accounts_db@ == precompiles_loaded(
            old(seashell).accounts_db@,
            precompiles@,
            old(seashell).feature_set@,
            precompiles@.len() as int,
        ).0,
        done.is_ok() == precompiles_loaded(
            old(seashell).accounts_db@,
            precompiles@,
            old(seashell).feature_set@,
            precompiles@.len() as int,
        ).1,
        done.is_err() ==> done == Err::<(), SeashellError>(
            SeashellError::InvalidSystemVariableEncoding,
        ),
        final(seashell).config == old(seashell).config,
        final(seashell).feature_set@ == old(seashell).feature_set@,
{
    let mut i: usize = 0;
    while i < precompiles.len()
        invariant
            i <= precompiles@.len(),
            seashell.config == old(seashell).config,
            seashell.feature_set@ == old(seashell).feature_set@,
            precompiles_loaded(
                old(seashell).accounts_db@,
                precompiles@,
                old(seashell).feature_set@,
                i as int,
            ) == (seashell.accounts_db@, true),
        decreases precompiles@.len() - i,
    {
        let precompile = precompiles[i];
        let enabled = match precompile.feature {
            None => true,
            Some(feature) => seashell.feature_set.is_active(&feature),
        };
        if enabled {
            let marker = Account {
                lamports: 1,
                data: Vec::new(),
                owner: Pubkey { bytes: NATIVE_LOADER_ID },
                executable: true,
                rent_epoch: 0,
            };
            assert(marker@ == marker_account());
            match seashell.accounts_db.set_account(precompile.program_id, marker) {
                Ok(()) => {},
                Err(e) => {
                    proof {
                        lemma_precompiles_stay_failed(
                            old(seashell).accounts_db@,
                            precompiles@,
                            old(seashell).feature_set@,
                            i as int + 1,
                            precompiles@.len() as int,
                        );
                    }
                    return Err(e);
                },
            }
        }
        i += 1;
    }
    Ok(())
}

} // verus!
