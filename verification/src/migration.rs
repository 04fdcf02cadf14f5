//! The migration of a store's rows into another database file, step by
//! step.
//!
//! A migration prepares the destination, attaches it, moves the rows in one
//! transaction, detaches the destination and reclaims space. [`Migration`]
//! decides after each answer of the engine which step comes next and what
//! the migration reports in the end; [`migration_statement`] gives the
//! statement of each step.

use crate::record::{MoveDB, StorageError};
use crate::store::{
    insert_failure, schema_text, transfer_statement, transfer_text, Co2db, EngineFailure,
    PRIMARY_KEY_VIOLATION,
};
use vstd::prelude::*;

verus! {

/// One character as it is written inside a text literal: a quote is written
/// twice.
pub open spec fn escaped_char(c: char) -> Seq<char> {
    if c == '\'' {
        seq!['\'', '\'']
    } else {
        seq![c]
    }
}

/// A text as it is written inside a text literal.
pub open spec fn escaped(text: Seq<char>) -> Seq<char>
    decreases text.len(),
{
    if text.len() == 0 {
        Seq::empty()
    } else {
        escaped_char(text.first()) + escaped(text.drop_first())
    }
}

/// Every quote in the text is one of a pair, so that a literal around the
/// text ends nowhere inside it.
pub open spec fn quotes_paired(literal: Seq<char>) -> bool
    decreases literal.len(),
{
    if literal.len() == 0 {
        true
    } else if literal[0] == '\'' {
        literal.len() >= 2 && literal[1] == '\'' && quotes_paired(literal.skip(2))
    } else {
        quotes_paired(literal.skip(1))
    }
}

/// The text that the inside of a text literal stands for: a pair of quotes
/// stands for one quote.
pub open spec fn unescaped(literal: Seq<char>) -> Seq<char>
    decreases literal.len(),
{
    if literal.len() == 0 {
        Seq::empty()
    } else if literal.len() >= 2 && literal[0] == '\'' && literal[1] == '\'' {
        seq!['\''] + unescaped(literal.skip(2))
    } else {
        seq![literal[0]] + unescaped(literal.skip(1))
    }
}

/// The statement that makes the destination file reachable as `to_db`. The
/// path stands in it as a text literal.
pub open spec fn attach_text(to_file: Seq<char>) -> Seq<char> {
    "ATTACH '"@ + escaped(to_file) + "' as to_db;"@
}

/// Writing a text piece by piece gives the same literal.
pub proof fn lemma_escaped_add(a: Seq<char>, b: Seq<char>)
    ensures
        escaped(a + b) == escaped(a) + escaped(b),
    decreases a.len(),
{
    if a.len() == 0 {
        assert(a + b =~= b);
        assert(escaped(a) + escaped(b) =~= escaped(b));
    } else {
        assert((a + b).drop_first() =~= a.drop_first() + b);
        lemma_escaped_add(a.drop_first(), b);
        assert(escaped_char(a.first()) + (escaped(a.drop_first()) + escaped(b)) =~= (escaped_char(
            a.first(),
        ) + escaped(a.drop_first())) + escaped(b));
    }
}

/// A text of one character is written as that character is.
pub proof fn lemma_escaped_one(c: char)
    ensures
        escaped(seq![c]) == escaped_char(c),
{
    reveal_with_fuel(escaped, 2);
    assert(seq![c].drop_first() =~= Seq::<char>::empty());
    assert(escaped_char(c) + Seq::<char>::empty() =~= escaped_char(c));
}

/// Law of literals. Whatever the text holds, the literal written for it
/// ends nowhere inside the text, and it stands for that very text: the
/// text is data and never part of the statement.
pub proof fn lemma_escaped_is_data(text: Seq<char>)
    ensures
        quotes_paired(escaped(text)),
        unescaped(escaped(text)) == text,
    decreases text.len(),
{
    if text.len() > 0 {
        let rest = text.drop_first();
        lemma_escaped_is_data(rest);
        let literal = escaped(text);
        if text.first() == '\'' {
            assert(literal[0] == '\'' && literal[1] == '\'');
            assert(literal.skip(2) =~= escaped(rest));
            assert(seq!['\''] + rest =~= text);
        } else {
            assert(literal[0] == text.first());
            assert(literal.skip(1) =~= escaped(rest));
            assert(seq![text.first()] + rest =~= text);
        }
    }
}

/// Writes a text as it stands inside a text literal.
pub fn escape(text: &str) -> (literal: String)
    ensures
        literal@ == escaped(text@),
{
    let len = text.unicode_len();
    let mut literal = String::new();
    let mut i: usize = 0;
    assert(text@.take(0) =~= Seq::<char>::empty());
    while i < len
        invariant
            i <= len,
            len == text@.len(),
            literal@ == escaped(text@.take(i as int)),
        decreases len - i,
    {
        let c = text.get_char(i);
        proof {
            lemma_escaped_add(text@.take(i as int), seq![c]);
            lemma_escaped_one(c);
            assert(text@.take(i as int) + seq![c] =~= text@.take(i + 1));
        }
        if c == '\'' {
            proof {
                reveal_strlit("''");
            }
            let ghost before = literal@;
            literal.append("''");
            assert(literal@ =~= before + escaped_char(c));
        } else {
            let piece = text.substring_char(i, i + 1);
            assert(piece@ =~= escaped_char(c));
            literal.append(piece);
        }
        i = i + 1;
    }
    assert(text@.take(len as int) =~= text@);
    literal
}

/// The statement that makes the destination file reachable as `to_db`.
pub fn attach_statement(to_file: &str) -> (sql: String)
    ensures
        sql@ == attach_text(to_file@),
{
    let mut sql = String::from_str("ATTACH '");
    sql.append(escape(to_file).as_str());
    sql.append("' as to_db;");
    sql
}

/// The steps of a migration.
#[derive(Clone, Copy, Debug, PartialEq, Eq, Structural)]
pub enum MigrationPhase {
    /// The destination file is opened, and created if it is missing, and
    /// the table is created in it unless it exists.
    Preparing,
    /// The destination is attached to the source's connection.
    Attaching,
    /// The rows are copied and the source is emptied, in one transaction.
    Transferring,
    /// The failed transaction is rolled back.
    RollingBack,
    /// The destination is detached again.
    Detaching,
    /// The space that the moved rows took is reclaimed.
    Reclaiming,
    /// Nothing is left to do.
    Finished,
}

/// A migration under way: the step that is due and what the migration
/// reports as things stand.
#[derive(Debug)]
pub struct Migration {
    /// The step that is due.
    pub phase: MigrationPhase,
    /// What the migration reports if nothing else fails.
    pub outcome: Result<(), StorageError>,
}

/// How far a migration has come.
pub open spec fn phase_rank(phase: MigrationPhase) -> int {
    match phase {
        MigrationPhase::Preparing => 0,
        MigrationPhase::Attaching => 1,
        MigrationPhase::Transferring => 2,
        MigrationPhase::RollingBack => 3,
        MigrationPhase::Detaching => 4,
        MigrationPhase::Reclaiming => 5,
        MigrationPhase::Finished => 6,
    }
}

/// The statement that a step hands to the engine. Preparing hands it to the
/// destination, the other steps to the source.
pub open spec fn migration_text(
    phase: MigrationPhase,
    table: Seq<char>,
    to_file: Seq<char>,
    mode: MoveDB,
) -> Seq<char> {
    match phase {
        MigrationPhase::Preparing => schema_text(table),
        MigrationPhase::Attaching => attach_text(to_file),
        MigrationPhase::Transferring => transfer_text(table, mode),
        MigrationPhase::RollingBack => "ROLLBACK;"@,
        MigrationPhase::Detaching => "DETACH DATABASE to_db;"@,
        MigrationPhase::Reclaiming => "VACUUM;"@,
        MigrationPhase::Finished => Seq::empty(),
    }
}

/// The error is how a refused transfer is reported: a collision on the
/// primary key under its own name, anything else with the engine's words.
pub open spec fn reports_transfer(e: StorageError, failure: EngineFailure) -> bool {
    if failure.code == Some(PRIMARY_KEY_VIOLATION) {
        e is PrimaryKeyCollision
    } else {
        e matches StorageError::Engine(text) && text@ == "cannot insert a row: "@
            + failure.detail@
    }
}

/// Before the transaction: success leads to the step `then`, a failure ends
/// the migration with the engine's words, and nothing has changed.
pub open spec fn advances(
    answer: Result<(), EngineFailure>,
    after: Migration,
    then: MigrationPhase,
) -> bool {
    match answer {
        Ok(_) => after.phase == then && after.outcome.is_ok(),
        Err(failure) => after.phase == MigrationPhase::Finished && after.outcome == Err::<
            (),
            StorageError,
        >(StorageError::Engine(failure.detail)),
    }
}

/// After the transaction is committed: success leads to the step `then`, a
/// failure ends the migration and is reported as a failure to tidy up.
pub open spec fn tidies(
    answer: Result<(), EngineFailure>,
    after: Migration,
    then: MigrationPhase,
) -> bool {
    match answer {
        Ok(_) => after.phase == then && after.outcome.is_ok(),
        Err(failure) => after.phase == MigrationPhase::Finished && after.outcome == Err::<
            (),
            StorageError,
        >(StorageError::Cleanup(failure.detail)),
    }
}

/// The migration `after` is what follows `before` on this answer of the
/// engine.
///
/// A failure to prepare or to attach ends the migration. A failed transfer
/// is rolled back and the destination detached, whatever the engine answers
/// to that, and the failure of the transfer is what the migration reports.
/// After a transfer that succeeded the destination is detached and space is
/// reclaimed; a failure of either ends the migration and is reported apart,
/// because the rows have moved.
pub open spec fn follows(
    before: Migration,
    answer: Result<(), EngineFailure>,
    after: Migration,
) -> bool {
    match before.phase {
        MigrationPhase::Preparing => advances(answer, after, MigrationPhase::Attaching),
        MigrationPhase::Attaching => advances(answer, after, MigrationPhase::Transferring),
        MigrationPhase::Transferring => match answer {
            Ok(_) => after.phase == MigrationPhase::Detaching && after.outcome.is_ok(),
            Err(failure) => after.phase == MigrationPhase::RollingBack && (
            after.outcome matches Err(e) && reports_transfer(e, failure)),
        },
        MigrationPhase::RollingBack => after.phase == MigrationPhase::Detaching && after.outcome
            == before.outcome,
        MigrationPhase::Detaching => if before.outcome.is_err() {
            after.phase == MigrationPhase::Finished && after.outcome == before.outcome
        } else {
            tidies(answer, after, MigrationPhase::Reclaiming)
        },
        MigrationPhase::Reclaiming => if before.outcome.is_err() {
            after.phase == MigrationPhase::Finished && after.outcome == before.outcome
        } else {
            tidies(answer, after, MigrationPhase::Finished)
        },
        MigrationPhase::Finished => after == before,
    }
}

/// What a migration can report: a collision or the engine's words when
/// nothing has changed, a failure to tidy up when the rows have moved.
pub open spec fn reportable(outcome: Result<(), StorageError>) -> bool {
    outcome matches Err(e) ==> e is PrimaryKeyCollision || e is Engine || e is Cleanup
}

/// The statement that a step hands to the engine.
pub fn migration_statement(phase: MigrationPhase, table: &str, to_file: &str, mode: MoveDB) -> (sql:
    String)
    ensures
        sql@ == migration_text(phase, table@, to_file@, mode),
{
    match phase {
        MigrationPhase::Preparing => Co2db::get_schema(table),
        MigrationPhase::Attaching => attach_statement(to_file),
        MigrationPhase::Transferring => transfer_statement(table, mode),
        MigrationPhase::RollingBack => String::from_str("ROLLBACK;"),
        MigrationPhase::Detaching => String::from_str("DETACH DATABASE to_db;"),
        MigrationPhase::Reclaiming => String::from_str("VACUUM;"),
        MigrationPhase::Finished => String::new(),
    }
}

impl Migration {
    /// A migration of which nothing is done yet.
    pub fn start() -> (migration: Migration)
        ensures
            migration.phase == MigrationPhase::Preparing,
            migration.outcome.is_ok(),
    {
        Migration { phase: MigrationPhase::Preparing, outcome: Ok(()) }
    }

    /// Whether nothing is left to do.
    pub fn finished(&self) -> (r: bool)
        ensures
            r == (self.phase == MigrationPhase::Finished),
    {
        match self.phase {
            MigrationPhase::Finished => true,
            _ => false,
        }
    }

    /// The migration after the engine has answered the step that was due.
    pub fn next(self, answer: Result<(), EngineFailure>) -> (after: Migration)
        ensures
            follows(self, answer, after),
            self.phase != MigrationPhase::Finished ==> phase_rank(after.phase) > phase_rank(
                self.phase,
            ),
            reportable(self.outcome) ==> reportable(after.outcome),
    {
        match self.phase {
            MigrationPhase::Preparing => match answer {
                Ok(_) => Migration { phase: MigrationPhase::Attaching, outcome: Ok(()) },
                Err(failure) => Migration {
                    phase: MigrationPhase::Finished,
                    outcome: Err(StorageError::Engine(failure.detail)),
                },
            },
            MigrationPhase::Attaching => match answer {
                Ok(_) => Migration { phase: MigrationPhase::Transferring, outcome: Ok(()) },
                Err(failure) => Migration {
                    phase: MigrationPhase::Finished,
                    outcome: Err(StorageError::Engine(failure.detail)),
                },
            },
            MigrationPhase::Transferring => match answer {
                Ok(_) => Migration { phase: MigrationPhase::Detaching, outcome: Ok(()) },
                Err(failure) => Migration {
                    phase: MigrationPhase::RollingBack,
                    outcome: Err(insert_failure(failure.code, failure.detail.as_str())),
                },
            },
            MigrationPhase::RollingBack => Migration {
                phase: MigrationPhase::Detaching,
                outcome: self.outcome,
            },
            MigrationPhase::Detaching => match self.outcome {
                Err(e) => Migration { phase: MigrationPhase::Finished, outcome: Err(e) },
                Ok(_) => match answer {
                    Ok(_) => Migration { phase: MigrationPhase::Reclaiming, outcome: Ok(()) },
                    Err(failure) => Migration {
                        phase: MigrationPhase::Finished,
                        outcome: Err(StorageError::Cleanup(failure.detail)),
                    },
                },
            },
            MigrationPhase::Reclaiming => match self.outcome {
                Err(e) => Migration { phase: MigrationPhase::Finished, outcome: Err(e) },
                Ok(_) => match answer {
                    Ok(_) => Migration { phase: MigrationPhase::Finished, outcome: Ok(()) },
                    Err(failure) => Migration {
                        phase: MigrationPhase::Finished,
                        outcome: Err(StorageError::Cleanup(failure.detail)),
                    },
                },
            },
            MigrationPhase::Finished => self,
        }
    }
}

} // verus!
