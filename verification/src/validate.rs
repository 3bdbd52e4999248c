//! Validation of a submitted order document: every field-level rule is
//! checked, and all failures are reported together, not only the first.

use vstd::prelude::*;
use vstd::string::StrSliceExecFns;

use crate::order::Order;

verus! {

/// One field-level rule of an order document; a validation failure names
/// the fields whose rules were violated.
#[derive(Clone, Copy, PartialEq, Eq, Structural, Debug)]
pub enum Field {
    OrderUid,
    TrackNumber,
    DeliveryName,
    DeliveryPhone,
    DeliveryZip,
    DeliveryCity,
    DeliveryAddress,
    DeliveryRegion,
    DeliveryEmail,
    Items,
}

/// A required string field passes when it holds at least one character.
pub open spec fn nonempty(s: Seq<char>) -> bool {
    s.len() > 0
}

/// `c` is one of the decimal digits `'0'` to `'9'`.
pub open spec fn digit(c: char) -> bool {
    48 <= c as u32 && c as u32 <= 57
}

/// A phone number is an optional leading `'+'` followed by 7 to 15
/// decimal digits and nothing else.
pub open spec fn phone_ok(s: Seq<char>) -> bool {
    let start: int = if s.len() > 0 && s[0] == '+' {
        1
    } else {
        0
    };
    &&& 7 <= s.len() - start
    &&& s.len() - start <= 15
    &&& forall|i: int| start <= i < s.len() ==> digit(#[trigger] s[i])
}

/// The verdict of the email rule on an address. The address grammar is
/// the outside library's; only the checker below speaks for it.
pub uninterp spec fn email_ok(s: Seq<char>) -> bool;

/// The rule attached to `f` holds of the document `o`.
pub open spec fn rule_holds(o: Order, f: Field) -> bool {
    match f {
        Field::OrderUid => nonempty(o.order_uid@),
        Field::TrackNumber => nonempty(o.track_number@),
        Field::DeliveryName => nonempty(o.delivery.name@),
        Field::DeliveryPhone => phone_ok(o.delivery.phone@),
        Field::DeliveryZip => nonempty(o.delivery.zip@),
        Field::DeliveryCity => nonempty(o.delivery.city@),
        Field::DeliveryAddress => nonempty(o.delivery.address@),
        Field::DeliveryRegion => nonempty(o.delivery.region@),
        Field::DeliveryEmail => email_ok(o.delivery.email@),
        Field::Items => o.items@.len() > 0,
    }
}

/// The document satisfies every field-level rule.
pub open spec fn order_valid(o: Order) -> bool {
    forall|f: Field| #[trigger] rule_holds(o, f)
}

/// The number of field-level rules.
pub open spec fn rule_count() -> int {
    10
}

/// The fixed order in which the validator examines the fields.
pub open spec fn field_at(i: int) -> Field {
    if i == 0 {
        Field::OrderUid
    } else if i == 1 {
        Field::TrackNumber
    } else if i == 2 {
        Field::DeliveryName
    } else if i == 3 {
        Field::DeliveryPhone
    } else if i == 4 {
        Field::DeliveryZip
    } else if i == 5 {
        Field::DeliveryCity
    } else if i == 6 {
        Field::DeliveryAddress
    } else if i == 7 {
        Field::DeliveryRegion
    } else if i == 8 {
        Field::DeliveryEmail
    } else {
        Field::Items
    }
}

/// The violated fields among the first `k` in checking order.
pub open spec fn violations_prefix(o: Order, k: int) -> Seq<Field>
    decreases k,
{
    if k <= 0 {
        Seq::empty()
    } else {
        let f = field_at(k - 1);
        let rest = violations_prefix(o, k - 1);
        if !rule_holds(o, f) {
            rest.push(f)
        } else {
            rest
        }
    }
}

/// The fields of `o` whose rules are violated, in the fixed order in
/// which the validator examines them.
pub open spec fn violations(o: Order) -> Seq<Field> {
    violations_prefix(o, rule_count())
}

/// The position of `f` in the fixed checking order.
pub open spec fn field_index(f: Field) -> int {
    match f {
        Field::OrderUid => 0,
        Field::TrackNumber => 1,
        Field::DeliveryName => 2,
        Field::DeliveryPhone => 3,
        Field::DeliveryZip => 4,
        Field::DeliveryCity => 5,
        Field::DeliveryAddress => 6,
        Field::DeliveryRegion => 7,
        Field::DeliveryEmail => 8,
        Field::Items => 9,
    }
}

proof fn lemma_violations_prefix(o: Order, k: int)
    requires
        0 <= k <= rule_count(),
    ensures
        forall|f: Field|
            #[trigger] violations_prefix(o, k).contains(f) <==> (!rule_holds(o, f) && exists|
                j: int,
            |
                0 <= j < k && f == #[trigger] field_at(j)),
        forall|i: int, j: int|
            0 <= i < j < violations_prefix(o, k).len() ==> violations_prefix(o, k)[i]
                != violations_prefix(o, k)[j],
    decreases k,
{
    broadcast use vstd::seq_lib::lemma_seq_contains_after_push;
    broadcast use vstd::seq_lib::lemma_seq_empty_contains_nothing;

    if k > 0 {
        lemma_violations_prefix(o, k - 1);
        let f = field_at(k - 1);
        let rest = violations_prefix(o, k - 1);
        if !rule_holds(o, f) {
            assert(!rest.contains(f));
            assert(violations_prefix(o, k) == rest.push(f));
            assert(forall|i: int| 0 <= i < rest.len() ==> rest.push(f)[i] == rest[i]);
            assert(rest.push(f)[rest.len() as int] == f);
        }
    }
}

/// Law of validation completeness: for a document violating any number
/// of independent rules, the report lists exactly the violated fields —
/// each one appears, and none appears twice.
pub proof fn lemma_validation_complete(o: Order)
    ensures
        forall|f: Field| #[trigger] violations(o).contains(f) <==> !rule_holds(o, f),
        forall|i: int, j: int|
            0 <= i < j < violations(o).len() ==> violations(o)[i] != violations(o)[j],
        order_valid(o) <==> violations(o).len() == 0,
{
    lemma_violations_prefix(o, rule_count());
    assert forall|f: Field| #[trigger] violations(o).contains(f) <==> !rule_holds(o, f) by {
        assert(field_at(field_index(f)) == f);
        assert(0 <= field_index(f) < rule_count());
    }
    if violations(o).len() > 0 {
        assert(violations(o).contains(violations(o)[0]));
    }
    if !order_valid(o) {
        let f = choose|f: Field| !rule_holds(o, f);
        assert(violations(o).contains(f));
    }
}

/// Decides the phone rule: an optional `'+'`, then 7 to 15 digits.
pub fn check_phone(s: &str) -> (b: bool)
    ensures
        b == phone_ok(s@),
{
    let n = s.unicode_len();
    let start: usize = if n > 0 && s.get_char(0) == '+' {
        1
    } else {
        0
    };
    let count = n - start;
    if count < 7 || count > 15 {
        return false;
    }
    let mut i = start;
    while i < n
        invariant
            start <= i <= n,
            n == s@.len(),
            start == 1 ==> n > 0 && s@[0] == '+',
            start == 0 ==> !(n > 0 && s@[0] == '+'),
            forall|j: int| start <= j < i ==> digit(#[trigger] s@[j]),
        decreases n - i,
    {
        let c = s.get_char(i);
        let u = c as u32;
        if u < 48 || u > 57 {
            return false;
        }
        i += 1;
    }
    true
}

/// Decides the email rule.
///
/// Relies on `validator::validate_email`: its verdict is a pure function
/// of the characters of the address alone (a fixed address grammar, with
/// no I/O and no environment access).
#[verifier::external_body]
fn check_email(s: &str) -> (b: bool)
    ensures
        b == email_ok(s@),
{
    validator::validate_email(s)
}

/// Validates a candidate order document against every field-level rule.
///
/// Returns `Ok(())` exactly when every rule passes; otherwise the error
/// lists every violated field — all of them, in the fixed checking order.
#[verifier::rlimit(40)]
pub fn validate_order(o: &Order) -> (r: Result<(), Vec<Field>>)
    ensures
        r is Ok <==> order_valid(*o),
        match r {
            Ok(()) => order_valid(*o),
            Err(v) => v@ == violations(*o) && v@.len() > 0,
        },
{
    let mut bad: Vec<Field> = Vec::new();
    proof {
        assert(violations_prefix(*o, 0) == Seq::<Field>::empty());
    }
    if o.order_uid.as_str().is_empty() {
        bad.push(Field::OrderUid);
    }
    proof {
        assert(bad@ == violations_prefix(*o, 1));
    }
    if o.track_number.as_str().is_empty() {
        bad.push(Field::TrackNumber);
    }
    proof {
        assert(bad@ == violations_prefix(*o, 2));
    }
    if o.delivery.name.as_str().is_empty() {
        bad.push(Field::DeliveryName);
    }
    proof {
        assert(bad@ == violations_prefix(*o, 3));
    }
    if !check_phone(o.delivery.phone.as_str()) {
        bad.push(Field::DeliveryPhone);
    }
    proof {
        assert(bad@ == violations_prefix(*o, 4));
    }
    if o.delivery.zip.as_str().is_empty() {
        bad.push(Field::DeliveryZip);
    }
    proof {
        assert(bad@ == violations_prefix(*o, 5));
    }
    if o.delivery.city.as_str().is_empty() {
        bad.push(Field::DeliveryCity);
    }
    proof {
        assert(bad@ == violations_prefix(*o, 6));
    }
    if o.delivery.address.as_str().is_empty() {
        bad.push(Field::DeliveryAddress);
    }
    proof {
        assert(bad@ == violations_prefix(*o, 7));
    }
    if o.delivery.region.as_str().is_empty() {
        bad.push(Field::DeliveryRegion);
    }
    proof {
        assert(bad@ == violations_prefix(*o, 8));
    }
    if !check_email(o.delivery.email.as_str()) {
        bad.push(Field::DeliveryEmail);
    }
    proof {
        assert(bad@ == violations_prefix(*o, 9));
    }
    if o.items.len() == 0 {
        bad.push(Field::Items);
    }
    proof {
        assert(bad@ == violations_prefix(*o, 10));
        assert(bad@ == violations(*o));
    }
    if bad.len() == 0 {
        proof {
            assert(violations_prefix(*o, 10).len() == 0);
            assert(violations_prefix(*o, 9).len() == 0 && rule_holds(*o, field_at(9)));
            assert(violations_prefix(*o, 8).len() == 0 && rule_holds(*o, field_at(8)));
            assert(violations_prefix(*o, 7).len() == 0 && rule_holds(*o, field_at(7)));
            assert(violations_prefix(*o, 6).len() == 0 && rule_holds(*o, field_at(6)));
            assert(violations_prefix(*o, 5).len() == 0 && rule_holds(*o, field_at(5)));
            assert(violations_prefix(*o, 4).len() == 0 && rule_holds(*o, field_at(4)));
            assert(violations_prefix(*o, 3).len() == 0 && rule_holds(*o, field_at(3)));
            assert(violations_prefix(*o, 2).len() == 0 && rule_holds(*o, field_at(2)));
            assert(violations_prefix(*o, 1).len() == 0 && rule_holds(*o, field_at(1)));
            assert(rule_holds(*o, field_at(0)));
        }
        Ok(())
    } else {
        proof {
            assert(!order_valid(*o)) by {
                if rule_holds(*o, Field::OrderUid) && rule_holds(*o, Field::TrackNumber)
                    && rule_holds(*o, Field::DeliveryName) && rule_holds(*o, Field::DeliveryPhone)
                    && rule_holds(*o, Field::DeliveryZip) && rule_holds(*o, Field::DeliveryCity)
                    && rule_holds(*o, Field::DeliveryAddress) && rule_holds(
                    *o,
                    Field::DeliveryRegion,
                ) && rule_holds(*o, Field::DeliveryEmail) && rule_holds(*o, Field::Items) {
                    assert(violations_prefix(*o, 0).len() == 0);
                    assert(violations_prefix(*o, 1).len() == 0);
                    assert(violations_prefix(*o, 2).len() == 0);
                    assert(violations_prefix(*o, 3).len() == 0);
                    assert(violations_prefix(*o, 4).len() == 0);
                    assert(violations_prefix(*o, 5).len() == 0);
                    assert(violations_prefix(*o, 6).len() == 0);
                    assert(violations_prefix(*o, 7).len() == 0);
                    assert(violations_prefix(*o, 8).len() == 0);
                    assert(violations_prefix(*o, 9).len() == 0);
                    assert(violations_prefix(*o, 10).len() == 0);
                }
            }
        }
        Err(bad)
    }
}

} // verus!
