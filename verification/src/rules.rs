//! The rule manager: the one façade callers use to score messages, record
//! outcomes, add rules, and read reputations.
//!
//! It owns the database connection and an in-memory cache of the rule
//! table. The cache is write-through: a rule reaches the durable store
//! first, and the cache only after the store accepted it, so the cache
//! always mirrors the store's rule table (`inv`). Callers that need the
//! manager from several threads put it behind a lock; every operation here
//! is a plain sequential call.

use vstd::prelude::*;

use crate::eval::lua_check_spam;
use crate::eval::score_of_output;
use crate::score::classify_score;
use crate::score::SPAM_THRESHOLD_MILLIS;
use crate::store::db_create_rules_table;
use crate::store::db_create_senders_table;
use crate::store::db_insert_rule;
use crate::store::db_load_rules;
use crate::store::db_open;
use crate::store::db_query_sender_flags;
use crate::store::db_rules;
use crate::store::db_senders;
use crate::store::db_upsert_sender;
use crate::store::rows_model;
use crate::store::spec_reputation;
use crate::store::spec_upsert;
use crate::store::StorageError;

verus! {

/// A single spam rule: a keyword and its score in milli-units.
#[derive(Clone)]
pub struct Rule {
    pub keyword: String,
    pub score: i64,
}

impl View for Rule {
    type V = (Seq<char>, int);

    open spec fn view(&self) -> (Seq<char>, int) {
        (self.keyword@, self.score as int)
    }
}

/// A sequence of rules as verified code models it.
pub open spec fn rules_model(rs: Seq<Rule>) -> Seq<(Seq<char>, int)> {
    rs.map_values(|r: Rule| r@)
}

/// Manages spam rules and sender reputations over a SQLite database, with
/// a write-through in-memory cache of the rule table.
pub struct RuleManager {
    pub conn: rusqlite::Connection,
    pub rules: Vec<Rule>,
}

impl RuleManager {
    /// The in-memory rule cache, as modelled rows.
    pub open spec fn cache_model(&self) -> Seq<(Seq<char>, int)> {
        rules_model(self.rules@)
    }

    /// The write-through invariant: the cache mirrors the durable rule
    /// table exactly.
    pub open spec fn inv(&self) -> bool {
        self.cache_model() == db_rules(self.conn)
    }

    /// Opens (or creates) the database at `db_path`, creates the two tables
    /// when missing, and loads the rule table into the cache.
    pub fn new(db_path: &str) -> (r: Result<Self, StorageError>)
        ensures
            r matches Ok(m) ==> m.inv(),
    {
        let mut conn = match db_open(db_path) {
            Ok(c) => c,
            Err(e) => {
                return Err(e);
            },
        };
        match db_create_rules_table(&mut conn) {
            Ok(()) => (),
            Err(e) => {
                return Err(e);
            },
        }
        match db_create_senders_table(&mut conn) {
            Ok(()) => (),
            Err(e) => {
                return Err(e);
            },
        }
        let rows = match db_load_rules(&conn) {
            Ok(v) => v,
            Err(e) => {
                return Err(e);
            },
        };
        let mut rules: Vec<Rule> = Vec::new();
        let mut i: usize = 0;
        while i < rows.len()
            invariant
                rules@.len() == i <= rows@.len(),
                forall|m: int|
                    0 <= m < i ==> (#[trigger] rules@[m])@ == (rows@[m].0@, rows@[m].1 as int),
            decreases rows@.len() - i,
        {
            let keyword = rows[i].0.clone();
            let score = rows[i].1;
            rules.push(Rule { keyword, score });
            i += 1;
        }
        proof {
            assert forall|m: int| 0 <= m < rules@.len() implies rules_model(rules@)[m]
                == rows_model(rows@)[m] by {
                assert(rules_model(rules@)[m] == rules@[m]@);
                assert(rows_model(rows@)[m] == (rows@[m].0@, rows@[m].1 as int));
            }
            assert(rules_model(rules@) =~= rows_model(rows@));
        }
        Ok(RuleManager { conn, rules })
    }

    /// Adds a rule durably, then mirrors it into the cache. On success the
    /// rule table and the cache each grow by exactly this one rule; if the
    /// durable insert fails, the cache is left untouched.
    pub fn add_rule(&mut self, keyword: String, score: i64) -> (r: Result<(), StorageError>)
        requires
            old(self).inv(),
        ensures
            final(self).inv(),
            r is Ok ==> db_rules(final(self).conn) == db_rules(old(self).conn).push(
                (keyword@, score as int),
            ),
            r is Ok ==> db_rules(final(self).conn).len() == db_rules(old(self).conn).len() + 1,
            r is Ok ==> final(self).cache_model() == old(self).cache_model().push(
                (keyword@, score as int),
            ),
            r is Ok ==> final(self).cache_model().contains((keyword@, score as int)),
            r is Err ==> final(self).cache_model() == old(self).cache_model() && db_rules(
                final(self).conn,
            ) == db_rules(old(self).conn),
            db_senders(final(self).conn) == db_senders(old(self).conn),
    {
        match db_insert_rule(&mut self.conn, keyword.as_str(), score) {
            Ok(()) => {
                self.rules.push(Rule { keyword, score });
                proof {
                    assert(self.cache_model() =~= old(self).cache_model().push(
                        (keyword@, score as int),
                    ));
                    assert(self.cache_model()[old(self).cache_model().len() as int] == (
                        keyword@,
                        score as int,
                    ));
                }
                Ok(())
            },
            Err(e) => Err(e),
        }
    }

    /// Records one evaluated message for `user_id`: the message count rises
    /// by one, the spam-flag count by one exactly when `is_spam`. A sender
    /// seen for the first time starts from zero on both counts. Never
    /// decrements anything.
    pub fn increment_sender_score(&mut self, user_id: &str, is_spam: bool) -> (r: Result<
        (),
        StorageError,
    >)
        requires
            old(self).inv(),
        ensures
            final(self).inv(),
            final(self).cache_model() == old(self).cache_model(),
            db_rules(final(self).conn) == db_rules(old(self).conn),
            r is Ok ==> db_senders(final(self).conn) == spec_upsert(
                db_senders(old(self).conn),
                user_id@,
                is_spam,
            ),
            r is Err ==> db_senders(final(self).conn) == db_senders(old(self).conn),
    {
        db_upsert_sender(&mut self.conn, user_id, is_spam)
    }

    /// Reads the sender's spam-flag count: 0 for a sender with no record,
    /// and 0 in place of a backing-store failure (a read never fails the
    /// caller). A pure read: `self` is untouched.
    pub fn get_sender_score(&self, user_id: &str) -> (score: i64)
        ensures
            score as int == spec_reputation(db_senders(self.conn), user_id@) || score == 0,
            !db_senders(self.conn).contains_key(user_id@) ==> score == 0,
    {
        match db_query_sender_flags(&self.conn, user_id) {
            Ok(Some(v)) => v,
            Ok(None) => 0,
            Err(_) => 0,
        }
    }

    /// A read-only copy of the rule cache.
    pub fn snapshot(&self) -> (out: Vec<Rule>)
        ensures
            rules_model(out@) == self.cache_model(),
    {
        let mut out: Vec<Rule> = Vec::new();
        let mut i: usize = 0;
        while i < self.rules.len()
            invariant
                out@.len() == i <= self.rules@.len(),
                forall|m: int| 0 <= m < i ==> (#[trigger] out@[m])@ == self.rules@[m]@,
            decreases self.rules@.len() - i,
        {
            let keyword = self.rules[i].keyword.clone();
            let score = self.rules[i].score;
            out.push(Rule { keyword, score });
            i += 1;
        }
        proof {
            assert forall|m: int| 0 <= m < out@.len() implies rules_model(out@)[m]
                == rules_model(self.rules@)[m] by {
                assert(rules_model(out@)[m] == out@[m]@);
                assert(rules_model(self.rules@)[m] == self.rules@[m]@);
            }
            assert(rules_model(out@) =~= rules_model(self.rules@));
        }
        out
    }

    /// Scores a message with the supplied scoring script (`None` when the
    /// script source could not be read). Every script failure yields 0; the
    /// exact mapping from a script run's outcome to a score is
    /// `score_of_output`.
    pub fn check_custom_rules(&self, script: Option<&str>, message: &str) -> (score: i64)
        ensures
            script is None ==> score == 0,
    {
        match script {
            None => 0,
            Some(src) => score_of_output(lua_check_spam(src, message)),
        }
    }

    /// Scores a message and classifies it: spam exactly when the score
    /// reaches the threshold (inclusive). An absent script yields
    /// `(0, false)`.
    pub fn evaluate(&self, script: Option<&str>, message: &str) -> (r: (i64, bool))
        ensures
            r.1 == (r.0 >= SPAM_THRESHOLD_MILLIS),
            script is None ==> r.0 == 0 && !r.1,
    {
        let score = self.check_custom_rules(script, message);
        let is_spam = classify_score(score);
        (score, is_spam)
    }
}

} // verus!
