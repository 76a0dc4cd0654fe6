//! The decision core of an execution bridge between a rollup module and a
//! block-execution engine.
//!
//! One call turns a batch of submitted transactions into a single ordered
//! block, has the engine execute and commit it under a signed ledger record,
//! follows the chain across epoch boundaries and ratchets a light-client
//! trust anchor forward.
//!
//! The bridge owns three pieces of state: the transaction index, the genesis
//! anchor and the trusted state. It talks to nobody. Whatever has to be done
//! outside (reading the clock and the engine's store, decoding and hashing
//! transactions, drawing random identifiers, executing, signing, committing,
//! checking a state proof) it asks for with an [`call::Action`], and it takes
//! the answer as an [`call::Event`]:
//!
//! | the bridge asks        | the surroundings answer    |
//! |------------------------|----------------------------|
//! | `Observe`              | `Observed(context)`        |
//! | `ReleaseReader`        | `ReaderReleased`           |
//! | `Execute { block }`    | `Executed(result)`         |
//! | `Commit { record }`    | `Committed(done)`          |
//! | `DeriveGenesis { .. }` | `GenesisDerived(id)`       |
//! | `VerifyProof { .. }`   | `ProofVerified(outcome)`   |
//! | `PersistTrustedState`  | `TrustedStatePersisted`    |
//!
//! A call ends with `Completed` or `Failed(error)`. Every transition is
//! stated as a function on the model of the bridge in [`call`], and what holds
//! of every call is proved in [`laws`].
//!
//! Two choices are deliberate. Transactions are indexed as soon as they
//! decode, before anything is executed: the index tells what was submitted,
//! not what was committed. And inside an epoch every block is built on the
//! same genesis anchor: the anchor moves only when a committed record closes
//! its epoch.

pub mod block;
pub mod call;
pub mod error;
pub mod hash;
pub mod index;
pub mod laws;
pub mod ledger;
pub mod trust;
