//! Statements the tracker builds for the database.

use vstd::prelude::*;
use crate::text::push_char;

verus! {

/// `n` question marks separated by commas.
pub open spec fn placeholders(n: nat) -> Seq<char>
    decreases n,
{
    if n == 0 {
        Seq::empty()
    } else if n == 1 {
        seq!['?']
    } else {
        placeholders((n - 1) as nat) + seq![',', '?']
    }
}

/// The placeholder list for `n` parameters holds exactly `n` question
/// marks, one at each even position, with a comma between each two.
pub proof fn law_placeholders_shape(n: nat)
    ensures
        placeholders(n).len() == if n == 0 { 0 } else { 2 * n - 1 },
        forall|k: int|
            0 <= k < placeholders(n).len() ==> #[trigger] placeholders(n)[k] == if k % 2 == 0 {
                '?'
            } else {
                ','
            },
    decreases n,
{
    if n >= 2 {
        law_placeholders_shape((n - 1) as nat);
        let p = placeholders((n - 1) as nat);
        assert forall|k: int| 0 <= k < placeholders(n).len() implies #[trigger] placeholders(
            n,
        )[k] == if k % 2 == 0 {
            '?'
        } else {
            ','
        } by {
            if k < p.len() {
                assert(placeholders(n)[k] == p[k]);
            }
        }
    }
}

/// The statement that marks `n` events, given as its parameters, as synced:
/// `UPDATE reading_events SET synced = 1 WHERE id IN (?,?,...)`.
pub fn mark_events_synced_sql(n: usize) -> (sql: String)
    ensures
        sql@ == "UPDATE reading_events SET synced = 1 WHERE id IN ("@ + placeholders(n as nat)
            + ")"@,
{
    let mut sql = String::from_str("UPDATE reading_events SET synced = 1 WHERE id IN (");
    let ghost head = sql@;
    let mut i: usize = 0;
    while i < n
        invariant
            i <= n,
            sql@ == head + placeholders(i as nat),
        decreases n - i,
    {
        if i > 0 {
            push_char(&mut sql, ',');
        }
        push_char(&mut sql, '?');
        i += 1;
        assert(sql@ =~= head + placeholders(i as nat));
    }
    sql.append(")");
    sql
}

} // verus!
