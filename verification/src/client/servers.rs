//! The servers that answered a discovery ping: reading an answer, and the
//! order in which the servers are listed, which goes by name and takes no
//! notice of case.

use crate::multicast::parse_datagram;
use crate::multicast::MulticastMessage;
use core::cmp::Ordering;
use vstd::prelude::*;
use vstd::string::*;

verus! {

/// How one thing stands to another in an order.
#[derive(Debug, Clone, Copy, PartialEq, Eq)]
pub enum Order {
    Less,
    Equal,
    Greater,
}

/// The lower-case form of a character, as `char::to_lowercase` gives it. It
/// may be more than one character.
pub uninterp spec fn lowercase_of(c: char) -> Seq<char>;

/// Calls `char::to_lowercase` and collects the characters that it yields,
/// in their order.
#[verifier::external_body]
fn lowercase(c: char) -> (lower: Vec<char>)
    ensures
        lower@ == lowercase_of(c),
{
    c.to_lowercase().collect()
}

/// Reads an answer to a discovery ping: the name of a server and the port
/// it listens on. A datagram that is no server identity gives nothing.
pub fn server_of(reply: &[u8]) -> (server: Option<(String, u16)>)
    ensures
        match parse_datagram(reply@) {
            Ok(Some((name, port))) => server matches Some(found) && found.0@ == name && found.1
                == port,
            _ => server is None,
        },
{
    match MulticastMessage::try_from(reply) {
        Ok(message) => match message.content() {
            Some((name, port)) => Some((name.clone(), *port)),
            None => None,
        },
        Err(_) => None,
    }
}

/// The order of two texts by their characters, the first difference
/// deciding, and a text before every text that it begins.
pub open spec fn lex(a: Seq<char>, b: Seq<char>) -> Order
    decreases a.len(),
{
    if a.len() == 0 && b.len() == 0 {
        Order::Equal
    } else if a.len() == 0 {
        Order::Less
    } else if b.len() == 0 {
        Order::Greater
    } else if a[0] < b[0] {
        Order::Less
    } else if a[0] > b[0] {
        Order::Greater
    } else {
        lex(a.drop_first(), b.drop_first())
    }
}

/// The order of two names without regard to case: character by character,
/// the lower-case forms are compared, and the first pair that differs
/// decides; a name comes before every name that it begins.
pub open spec fn name_order(a: Seq<char>, b: Seq<char>) -> Order
    decreases a.len(),
{
    if a.len() == 0 && b.len() == 0 {
        Order::Equal
    } else if a.len() == 0 {
        Order::Less
    } else if b.len() == 0 {
        Order::Greater
    } else {
        match lex(lowercase_of(a[0]), lowercase_of(b[0])) {
            Order::Equal => name_order(a.drop_first(), b.drop_first()),
            decided => decided,
        }
    }
}

/// The order seen from the other side.
pub open spec fn mirror(order: Order) -> Order {
    match order {
        Order::Less => Order::Greater,
        Order::Equal => Order::Equal,
        Order::Greater => Order::Less,
    }
}

/// The characters of a text.
pub fn chars_of(text: &str) -> (chars: Vec<char>)
    ensures
        chars@ == text@,
{
    let mut chars: Vec<char> = Vec::new();
    for c in it: text.chars()
        invariant
            chars@ == it.seq().take(it.index() as int),
            it.seq() == text@,
    {
        chars.push(c);
    }
    chars
}

/// Compares two texts character by character.
pub fn compare(a: &Vec<char>, b: &Vec<char>) -> (order: Order)
    ensures
        order == lex(a@, b@),
{
    let mut i: usize = 0;
    assert(a@.skip(0) =~= a@ && b@.skip(0) =~= b@);
    while i < a.len() && i < b.len()
        invariant
            i <= a@.len(),
            i <= b@.len(),
            lex(a@, b@) == lex(a@.skip(i as int), b@.skip(i as int)),
        decreases a@.len() - i,
    {
        assert(a@.skip(i as int).drop_first() =~= a@.skip(i + 1));
        assert(b@.skip(i as int).drop_first() =~= b@.skip(i + 1));
        if a[i] < b[i] {
            return Order::Less;
        }
        if a[i] > b[i] {
            return Order::Greater;
        }
        i += 1;
    }
    if i < a.len() {
        Order::Greater
    } else if i < b.len() {
        Order::Less
    } else {
        Order::Equal
    }
}

/// Compares two server names without regard to case.
pub fn order_names(lhs: &str, rhs: &str) -> (order: Order)
    ensures
        order == name_order(lhs@, rhs@),
{
    let a = chars_of(lhs);
    let b = chars_of(rhs);
    let mut i: usize = 0;
    assert(a@.skip(0) =~= a@ && b@.skip(0) =~= b@);
    while i < a.len() && i < b.len()
        invariant
            i <= a@.len(),
            i <= b@.len(),
            a@ == lhs@,
            b@ == rhs@,
            name_order(lhs@, rhs@) == name_order(a@.skip(i as int), b@.skip(i as int)),
        decreases a@.len() - i,
    {
        assert(a@.skip(i as int).drop_first() =~= a@.skip(i + 1));
        assert(b@.skip(i as int).drop_first() =~= b@.skip(i + 1));
        let l = lowercase(a[i]);
        let r = lowercase(b[i]);
        match compare(&l, &r) {
            Order::Equal => {},
            decided => {
                return decided;
            },
        }
        i += 1;
    }
    if i < a.len() {
        Order::Greater
    } else if i < b.len() {
        Order::Less
    } else {
        Order::Equal
    }
}

/// The same order in the words of the standard library.
pub open spec fn ordering_of(order: Order) -> Ordering {
    match order {
        Order::Less => Ordering::Less,
        Order::Equal => Ordering::Equal,
        Order::Greater => Ordering::Greater,
    }
}

/// Compares two server names without regard to case, for sorting.
pub fn compare_names(lhs: &str, rhs: &str) -> (ordering: Ordering)
    ensures
        ordering == ordering_of(name_order(lhs@, rhs@)),
{
    match order_names(lhs, rhs) {
        Order::Less => Ordering::Less,
        Order::Equal => Ordering::Equal,
        Order::Greater => Ordering::Greater,
    }
}

/// Seen from the other side, the order of two texts is the other way
/// round.
pub proof fn lemma_lex_mirror(a: Seq<char>, b: Seq<char>)
    ensures
        lex(b, a) == mirror(lex(a, b)),
    decreases a.len(),
{
    if a.len() > 0 && b.len() > 0 && a[0] == b[0] {
        lemma_lex_mirror(a.drop_first(), b.drop_first());
    }
}

/// Seen from the other side, the order of two names is the other way
/// round; so a name is equal to itself, and of two names that differ in
/// this order one comes first.
pub proof fn lemma_name_order_mirror(a: Seq<char>, b: Seq<char>)
    ensures
        name_order(b, a) == mirror(name_order(a, b)),
    decreases a.len(),
{
    if a.len() > 0 && b.len() > 0 {
        lemma_lex_mirror(lowercase_of(a[0]), lowercase_of(b[0]));
        lemma_name_order_mirror(a.drop_first(), b.drop_first());
    }
}

/// Whether three orders chain: what comes before or with the second, which
/// comes before or with the third, comes before or with the third, and
/// strictly before it as soon as one of the two steps is strict.
pub open spec fn chains(first: Order, second: Order, both: Order) -> bool {
    match (first, second) {
        (Order::Greater, _) => true,
        (_, Order::Greater) => true,
        (Order::Equal, Order::Equal) => both == Order::Equal,
        _ => both == Order::Less,
    }
}

/// The order of texts by their characters is transitive.
pub proof fn lemma_lex_transitive(a: Seq<char>, b: Seq<char>, c: Seq<char>)
    ensures
        chains(lex(a, b), lex(b, c), lex(a, c)),
    decreases a.len(),
{
    if a.len() > 0 && b.len() > 0 && c.len() > 0 && a[0] == b[0] && b[0] == c[0] {
        lemma_lex_transitive(a.drop_first(), b.drop_first(), c.drop_first());
    }
}

/// The order of names without regard to case is transitive. With
/// [`lemma_name_order_mirror`] this makes it an order by which a list can
/// be sorted.
pub proof fn lemma_name_order_transitive(a: Seq<char>, b: Seq<char>, c: Seq<char>)
    ensures
        chains(name_order(a, b), name_order(b, c), name_order(a, c)),
    decreases a.len(),
{
    if a.len() > 0 && b.len() > 0 && c.len() > 0 {
        lemma_lex_transitive(lowercase_of(a[0]), lowercase_of(b[0]), lowercase_of(c[0]));
        lemma_name_order_transitive(a.drop_first(), b.drop_first(), c.drop_first());
    }
}

} // verus!
