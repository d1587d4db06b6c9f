//! The question put to the store.

use crate::category::{lemma_table_names_plain, lemma_tables_distinct, WordCategory};
use crate::digits::{decimal, decimal_text, lemma_decimal_chars, lemma_decimal_injective};
use vstd::prelude::*;

verus! {

/// The query that draws one word: of the words in `table` that have between
/// `min_length` and `max_length` characters, both inclusive, one picked at
/// random, in lower case. A range with its lower end above its upper end
/// selects nothing.
pub open spec fn sample_query(table: Seq<char>, min_length: int, max_length: int) -> Seq<char> {
    "SELECT LOWER(word) FROM "@ + table + " where length(word) between "@ + decimal(min_length)
        + " and  "@ + decimal(max_length) + " ORDER BY RANDOM() LIMIT 1"@
}

/// Whether the text is a query that draws one word: of some category, for
/// some range of lengths. Such a query only reads, selects a single column,
/// which the query itself names, and takes at most one row.
pub open spec fn is_sample_query(sql: Seq<char>) -> bool {
    exists|category: WordCategory, min_length: int, max_length: int|
        sql == #[trigger] sample_query(category.table_name(), min_length, max_length)
}

/// Writes the query that draws one word of the category with a length in
/// `min_length ..= max_length`.
pub fn sample_sql(category: WordCategory, min_length: i32, max_length: i32) -> (sql: String)
    ensures
        sql@ == sample_query(category.table_name(), min_length as int, max_length as int),
{
    let low = decimal_text(min_length);
    let high = decimal_text(max_length);
    let mut sql = "SELECT LOWER(word) FROM ".to_owned();
    sql.append(category.table());
    sql.append(" where length(word) between ");
    sql.append(low.as_str());
    sql.append(" and  ");
    sql.append(high.as_str());
    sql.append(" ORDER BY RANDOM() LIMIT 1");
    sql
}

/// Whether the text holds no blank.
pub open spec fn no_blank(text: Seq<char>) -> bool {
    forall|i: int| 0 <= i < text.len() ==> #[trigger] text[i] != ' '
}

/// Two texts without a blank, each followed by a text that begins with a
/// blank: where the two wholes are the same, so are the parts.
pub proof fn lemma_same_parts(x: Seq<char>, rest_x: Seq<char>, y: Seq<char>, rest_y: Seq<char>)
    requires
        x + rest_x == y + rest_y,
        no_blank(x),
        no_blank(y),
        rest_x.len() > 0 && rest_x[0] == ' ',
        rest_y.len() > 0 && rest_y[0] == ' ',
    ensures
        x == y,
        rest_x == rest_y,
{
    let whole_x = x + rest_x;
    let whole_y = y + rest_y;
    if x.len() < y.len() {
        assert(whole_x[x.len() as int] == rest_x[0]);
        assert(whole_y[x.len() as int] == y[x.len() as int]);
    } else if y.len() < x.len() {
        assert(whole_y[y.len() as int] == rest_y[0]);
        assert(whole_x[y.len() as int] == x[y.len() as int]);
    } else {
        assert(x =~= whole_x.subrange(0, x.len() as int));
        assert(y =~= whole_y.subrange(0, y.len() as int));
        assert(rest_x =~= whole_x.subrange(x.len() as int, whole_x.len() as int));
        assert(rest_y =~= whole_y.subrange(y.len() as int, whole_y.len() as int));
    }
}

/// Three texts without a blank, each followed by a joint that begins with
/// a blank, behind a common head: where two such wholes are the same, so is
/// each of the three texts.
pub proof fn lemma_same_three(
    head: Seq<char>,
    first: Seq<char>,
    joint: Seq<char>,
    second: Seq<char>,
    link: Seq<char>,
    third: Seq<char>,
    end: Seq<char>,
    other_first: Seq<char>,
    other_second: Seq<char>,
    other_third: Seq<char>,
)
    requires
        head + first + joint + second + link + third + end == head + other_first + joint
            + other_second + link + other_third + end,
        no_blank(first) && no_blank(second) && no_blank(third),
        no_blank(other_first) && no_blank(other_second) && no_blank(other_third),
        joint.len() > 0 && joint[0] == ' ',
        link.len() > 0 && link[0] == ' ',
        end.len() > 0 && end[0] == ' ',
    ensures
        first == other_first,
        second == other_second,
        third == other_third,
{
    let whole = head + first + joint + second + link + third + end;
    let other = head + other_first + joint + other_second + link + other_third + end;
    let rest = joint + (second + (link + (third + end)));
    let other_rest = joint + (other_second + (link + (other_third + end)));
    assert(first + rest == other_first + other_rest) by {
        assert(whole =~= head + (first + rest));
        assert(other =~= head + (other_first + other_rest));
        assert(first + rest =~= (head + (first + rest)).subrange(
            head.len() as int,
            whole.len() as int,
        ));
        assert(other_first + other_rest =~= (head + (other_first + other_rest)).subrange(
            head.len() as int,
            other.len() as int,
        ));
    }
    lemma_same_parts(first, rest, other_first, other_rest);
    let tail = link + (third + end);
    let other_tail = link + (other_third + end);
    assert(second + tail == other_second + other_tail) by {
        assert(second + tail =~= rest.subrange(joint.len() as int, rest.len() as int));
        assert(other_second + other_tail =~= other_rest.subrange(
            joint.len() as int,
            other_rest.len() as int,
        ));
    }
    lemma_same_parts(second, tail, other_second, other_tail);
    assert(third + end == other_third + end) by {
        assert(third + end =~= tail.subrange(link.len() as int, tail.len() as int));
        assert(other_third + end =~= other_tail.subrange(
            link.len() as int,
            other_tail.len() as int,
        ));
    }
    lemma_same_parts(third, end, other_third, end);
}

/// What stands between the parts of a query begins with a blank.
proof fn lemma_query_joints()
    ensures
        " where length(word) between "@.len() > 0 && " where length(word) between "@[0] == ' ',
        " and  "@.len() > 0 && " and  "@[0] == ' ',
        " ORDER BY RANDOM() LIMIT 1"@.len() > 0 && " ORDER BY RANDOM() LIMIT 1"@[0] == ' ',
{
    reveal_strlit(" where length(word) between ");
    reveal_strlit(" and  ");
    reveal_strlit(" ORDER BY RANDOM() LIMIT 1");
}

/// A query names its draw: two draws that put the same query to the store
/// ask the same category's table, and for the same range of lengths.
pub proof fn lemma_query_names_draw(
    a: WordCategory,
    b: WordCategory,
    min_a: int,
    max_a: int,
    min_b: int,
    max_b: int,
)
    requires
        sample_query(a.table_name(), min_a, max_a) == sample_query(b.table_name(), min_b, max_b),
    ensures
        a == b,
        min_a == min_b,
        max_a == max_b,
{
    lemma_query_joints();
    lemma_table_names_plain(a);
    lemma_table_names_plain(b);
    lemma_decimal_chars(min_a);
    lemma_decimal_chars(min_b);
    lemma_decimal_chars(max_a);
    lemma_decimal_chars(max_b);
    lemma_same_three(
        "SELECT LOWER(word) FROM "@,
        a.table_name(),
        " where length(word) between "@,
        decimal(min_a),
        " and  "@,
        decimal(max_a),
        " ORDER BY RANDOM() LIMIT 1"@,
        b.table_name(),
        decimal(min_b),
        decimal(max_b),
    );
    lemma_tables_distinct(a, b);
    lemma_decimal_injective(min_a, min_b);
    lemma_decimal_injective(max_a, max_b);
}

} // verus!
