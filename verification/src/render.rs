//! One line of text for a result: the query, centred in brackets, then the
//! ids of the products found or the status of the failure.
//!
//! ```text
//! [  laptop  ] => [1, 5, 8]
//! [   food   ] => Error: Some(404)
//! [    hd    ] => Error: None
//! ```

use crate::model::{Outcome, Product, ProductView, QueryResult, QueryResultView};
use vstd::prelude::*;
use vstd::string::StringExecFns;

verus! {

/// The width that the query is centred in.
pub const QUERY_WIDTH: usize = 10;

/// The character of a decimal digit.
pub open spec fn digit(value: nat) -> char {
    if value == 0 {
        '0'
    } else if value == 1 {
        '1'
    } else if value == 2 {
        '2'
    } else if value == 3 {
        '3'
    } else if value == 4 {
        '4'
    } else if value == 5 {
        '5'
    } else if value == 6 {
        '6'
    } else if value == 7 {
        '7'
    } else if value == 8 {
        '8'
    } else {
        '9'
    }
}

/// A number in decimal, without leading zeros.
pub open spec fn decimal(value: nat) -> Seq<char>
    decreases value,
{
    if value < 10 {
        seq![digit(value)]
    } else {
        decimal(value / 10).push(digit(value % 10))
    }
}

/// A run of `count` spaces.
pub open spec fn spaces(count: nat) -> Seq<char> {
    Seq::new(count, |at: int| ' ')
}

/// `text` centred in a field of `width` characters. A text that fills the
/// field is left as it is. Of an odd number of spaces the larger half
/// follows the text.
pub open spec fn centered(text: Seq<char>, width: nat) -> Seq<char> {
    if text.len() >= width {
        text
    } else {
        let room = (width - text.len()) as nat;
        spaces(room / 2) + text + spaces((room - room / 2) as nat)
    }
}

/// The items of a list, each separated from the next by a comma and a space.
pub open spec fn joined(items: Seq<Seq<char>>) -> Seq<char>
    decreases items.len(),
{
    if items.len() == 0 {
        Seq::empty()
    } else if items.len() == 1 {
        items[0]
    } else {
        joined(items.drop_last()) + ", "@ + items.last()
    }
}

/// The ids of a sequence of products, each in decimal.
pub open spec fn ids(products: Seq<ProductView>) -> Seq<Seq<char>> {
    products.map_values(|product: ProductView| decimal(product.id))
}

/// The text of what a query ended in: the ids of the products in square
/// brackets, or the status of the failure where it has one.
pub open spec fn rendered_outcome(outcome: Outcome) -> Seq<char> {
    match outcome {
        Ok(reply) => "["@ + joined(ids(reply.products)) + "]"@,
        Err(failure) => match failure.status() {
            Some(code) => "Error: Some("@ + decimal(code as nat) + ")"@,
            None => "Error: None"@,
        },
    }
}

/// The line of text of a result.
pub open spec fn rendered(result: QueryResultView) -> Seq<char> {
    "["@ + centered(result.query, QUERY_WIDTH as nat) + "] => "@ + rendered_outcome(
        result.response,
    )
}

fn digit_text(value: usize) -> (text: &'static str)
    requires
        value < 10,
    ensures
        text@ == seq![digit(value as nat)],
{
    proof {
        reveal_strlit("0");
        reveal_strlit("1");
        reveal_strlit("2");
        reveal_strlit("3");
        reveal_strlit("4");
        reveal_strlit("5");
        reveal_strlit("6");
        reveal_strlit("7");
        reveal_strlit("8");
        reveal_strlit("9");
    }
    let text = match value {
        0 => "0",
        1 => "1",
        2 => "2",
        3 => "3",
        4 => "4",
        5 => "5",
        6 => "6",
        7 => "7",
        8 => "8",
        _ => "9",
    };
    assert(text@ =~= seq![digit(value as nat)]);
    text
}

fn append_decimal(out: &mut String, value: usize)
    ensures
        final(out)@ == old(out)@ + decimal(value as nat),
    decreases value,
{
    if value >= 10 {
        append_decimal(out, value / 10);
    }
    out.append(digit_text(value % 10));
    assert(out@ =~= old(out)@ + decimal(value as nat));
}

fn append_spaces(out: &mut String, count: usize)
    ensures
        final(out)@ == old(out)@ + spaces(count as nat),
{
    let mut done: usize = 0;
    assert(out@ =~= old(out)@ + spaces(0));
    while done < count
        invariant
            done <= count,
            out@ == old(out)@ + spaces(done as nat),
        decreases count - done,
    {
        proof {
            reveal_strlit(" ");
        }
        out.append(" ");
        done = done + 1;
        assert(out@ =~= old(out)@ + spaces(done as nat));
    }
}

fn append_centered(out: &mut String, text: &str, width: usize)
    ensures
        final(out)@ == old(out)@ + centered(text@, width as nat),
{
    let length = text.unicode_len();
    if length >= width {
        out.append(text);
    } else {
        let room = width - length;
        append_spaces(out, room / 2);
        out.append(text);
        append_spaces(out, room - room / 2);
        assert(out@ =~= old(out)@ + centered(text@, width as nat));
    }
}

fn append_ids(out: &mut String, products: &Vec<Product>)
    ensures
        final(out)@ == old(out)@ + joined(ids(products@.map_values(|p: Product| p@))),
{
    let ghost all = ids(products@.map_values(|p: Product| p@));
    let mut at: usize = 0;
    assert(all.take(0) =~= Seq::empty());
    assert(out@ =~= old(out)@ + joined(all.take(0)));
    while at < products.len()
        invariant
            at <= products.len(),
            all == ids(products@.map_values(|p: Product| p@)),
            out@ == old(out)@ + joined(all.take(at as int)),
        decreases products.len() - at,
    {
        if at > 0 {
            out.append(", ");
        }
        append_decimal(out, products[at].id);
        proof {
            let next = all.take(at + 1);
            assert(next.drop_last() =~= all.take(at as int));
            assert(next.last() == decimal(products[at as int].id as nat));
            if at == 0 {
                assert(joined(next) == next[0]);
                assert(out@ =~= old(out)@ + joined(next));
            } else {
                assert(joined(next) == joined(all.take(at as int)) + ", "@ + next.last());
                assert(out@ =~= old(out)@ + joined(next));
            }
        }
        at = at + 1;
    }
    assert(all.take(at as int) =~= all);
}

impl Product {
    /// The text that stands for the product in a line: its id, in decimal.
    pub fn to_text(&self) -> (text: String)
        ensures
            text@ == decimal(self@.id),
    {
        let mut out = String::new();
        append_decimal(&mut out, self.id);
        assert(out@ =~= decimal(self@.id));
        out
    }
}

impl<'a> QueryResult<'a> {
    /// The line of text of this result.
    pub fn to_text(&self) -> (text: String)
        ensures
            text@ == rendered(self@),
    {
        let mut out = String::new();
        out.append("[");
        append_centered(&mut out, self.query, QUERY_WIDTH);
        out.append("] => ");
        let ghost head = out@;
        assert(head =~= "["@ + centered(self@.query, QUERY_WIDTH as nat) + "] => "@);
        match &self.response {
            Ok(reply) => {
                out.append("[");
                append_ids(&mut out, &reply.products);
                out.append("]");
                assert(out@ =~= head + rendered_outcome(self@.response));
            },
            Err(failure) => {
                match failure.status() {
                    Some(code) => {
                        out.append("Error: Some(");
                        append_decimal(&mut out, code as usize);
                        out.append(")");
                        assert(out@ =~= head + rendered_outcome(self@.response));
                    },
                    None => {
                        out.append("Error: None");
                    },
                }
            },
        }
        out
    }
}

} // verus!
