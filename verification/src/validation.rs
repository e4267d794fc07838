//! Validation: whether everything that an order refers to is in the system.

use crate::error::{reports, ObjectKind, OrderError};
use crate::model::{OrderItemInput, User};
use crate::uuid::Uuid;
use vstd::prelude::*;

verus! {

/// Why objects could not be looked for.
#[derive(Debug)]
pub enum FindFailure {
    /// The database refused the query.
    Find,
    /// The database broke off its answer, with these words.
    Collect { text: String },
}

/// Checks if a single object is in the system, by what came of looking for it.
pub fn validate_object<T>(found: Result<T, String>) -> (result: Result<(), OrderError>)
    ensures
        match found {
            Ok(object) => result is Ok,
            Err(words) => reports(result, words),
        },
{
    match found {
        Ok(_) => Ok(()),
        Err(text) => Err(OrderError::Reported { text }),
    }
}

/// Whether the UUID at `i` is the last that was not found.
pub open spec fn last_missing(object_ids: Seq<Uuid>, ids: Seq<Uuid>, i: int) -> bool {
    &&& 0 <= i < object_ids.len()
    &&& !ids.contains(object_ids[i])
    &&& forall|j: int| i < j < object_ids.len() ==> ids.contains(#[trigger] object_ids[j])
}

/// Whether `error` complains of the last UUID that was not found.
pub open spec fn not_present(
    kind: ObjectKind,
    object_ids: Seq<Uuid>,
    ids: Seq<Uuid>,
    error: OrderError,
) -> bool {
    exists|i: int| #[trigger]
        last_missing(object_ids, ids, i) && error == (OrderError::NotPresent { kind, id: object_ids[i] })
}

/// Whether `result` tells rightly if all objects were found. Of those that were not, the last one
/// is complained of.
pub open spec fn objects_outcome(
    kind: ObjectKind,
    object_ids: Seq<Uuid>,
    found: Result<Vec<Uuid>, FindFailure>,
    result: Result<(), OrderError>,
) -> bool {
    match found {
        Err(FindFailure::Find) => result matches Err(error) && error == (OrderError::NonePresent { kind }),
        Err(FindFailure::Collect { text: words }) => reports(result, words),
        Ok(ids) => match result {
            Ok(()) => object_ids.to_set().subset_of(ids@.to_set()),
            Err(error) => not_present(kind, object_ids, ids@, error),
        },
    }
}

/// Whether a list holds a UUID.
fn holds(ids: &Vec<Uuid>, id: Uuid) -> (held: bool)
    ensures
        held == ids@.contains(id),
{
    let mut i: usize = 0;
    while i < ids.len()
        invariant
            i <= ids@.len(),
            forall|j: int| 0 <= j < i ==> ids@[j] != id,
        decreases ids.len() - i,
    {
        if ids[i] == id {
            return true;
        }
        i += 1;
    }
    false
}

/// Checks if all objects are in the system, by the UUIDs of those that were found.
pub fn validate_objects(kind: ObjectKind, object_ids: &Vec<Uuid>, found: Result<Vec<Uuid>, FindFailure>) -> (result:
    Result<(), OrderError>)
    ensures
        objects_outcome(kind, object_ids@, found, result),
{
    let ids: Vec<Uuid> = match found {
        Err(FindFailure::Find) => {
            return Err(OrderError::NonePresent { kind });
        },
        Err(FindFailure::Collect { text }) => {
            return Err(OrderError::Reported { text });
        },
        Ok(ids) => ids,
    };
    let mut i: usize = object_ids.len();
    while i > 0
        invariant
            found == Ok::<Vec<Uuid>, FindFailure>(ids),
            i <= object_ids@.len(),
            forall|j: int| i <= j < object_ids@.len() ==> ids@.contains(#[trigger] object_ids@[j]),
        decreases i,
    {
        i -= 1;
        if !holds(&ids, object_ids[i]) {
            let error = OrderError::NotPresent { kind, id: object_ids[i] };
            assert(last_missing(object_ids@, ids@, i as int));
            assert(not_present(kind, object_ids@, ids@, error));
            return Err(error);
        }
    }
    assert forall|id: Uuid| #[trigger] object_ids@.to_set().contains(id) implies ids@.to_set().contains(id) by {
        let j = choose|j: int| 0 <= j < object_ids@.len() && object_ids@[j] == id;
        assert(ids@.contains(object_ids@[j]));
    }
    Ok(())
}

/// The shipment methods of positions.
pub open spec fn shipment_methods_of(inputs: Seq<OrderItemInput>) -> Seq<Uuid> {
    inputs.map_values(|input: OrderItemInput| input.shipment_method_id)
}

/// Lists the shipment methods of positions.
pub fn shipment_method_ids(order_item_inputs: &Vec<OrderItemInput>) -> (ids: Vec<Uuid>)
    ensures
        ids@ == shipment_methods_of(order_item_inputs@),
{
    let mut ids: Vec<Uuid> = Vec::new();
    let mut i: usize = 0;
    while i < order_item_inputs.len()
        invariant
            i <= order_item_inputs@.len(),
            ids@ =~= shipment_methods_of(order_item_inputs@.take(i as int)),
        decreases order_item_inputs.len() - i,
    {
        ids.push(order_item_inputs[i].shipment_method_id);
        i += 1;
    }
    assert(order_item_inputs@.take(i as int) =~= order_item_inputs@);
    ids
}

/// The coupons of positions, those of the first position first.
pub open spec fn coupons_of(inputs: Seq<OrderItemInput>) -> Seq<Uuid>
    decreases inputs.len(),
{
    if inputs.len() == 0 {
        Seq::empty()
    } else {
        coupons_of(inputs.drop_last()) + inputs.last().coupon_ids@
    }
}

/// Lists the coupons of positions.
pub fn coupon_ids(order_item_inputs: &Vec<OrderItemInput>) -> (ids: Vec<Uuid>)
    ensures
        ids@ == coupons_of(order_item_inputs@),
{
    let mut ids: Vec<Uuid> = Vec::new();
    let mut i: usize = 0;
    while i < order_item_inputs.len()
        invariant
            i <= order_item_inputs@.len(),
            ids@ =~= coupons_of(order_item_inputs@.take(i as int)),
        decreases order_item_inputs.len() - i,
    {
        let ghost before = ids@;
        let ghost coupons = order_item_inputs@[i as int].coupon_ids@;
        let mut j: usize = 0;
        while j < order_item_inputs[i as usize].coupon_ids.len()
            invariant
                i < order_item_inputs@.len(),
                coupons == order_item_inputs@[i as int].coupon_ids@,
                j <= coupons.len(),
                ids@ =~= before + coupons.take(j as int),
            decreases coupons.len() - j,
        {
            ids.push(order_item_inputs[i].coupon_ids[j]);
            j += 1;
        }
        assert(coupons.take(j as int) =~= coupons);
        assert(order_item_inputs@.take(i + 1).drop_last() =~= order_item_inputs@.take(i as int));
        i += 1;
    }
    assert(order_item_inputs@.take(i as int) =~= order_item_inputs@);
    ids
}

/// Every coupon of a position is among those that are looked for, and no other UUID is.
pub proof fn all_coupons_are_looked_for(inputs: Seq<OrderItemInput>, id: Uuid)
    ensures
        coupons_of(inputs).contains(id) <==> exists|i: int|
            0 <= i < inputs.len() && (#[trigger] inputs[i]).coupon_ids@.contains(id),
    decreases inputs.len(),
{
    if inputs.len() > 0 {
        let rest = inputs.drop_last();
        let last = inputs.last().coupon_ids@;
        all_coupons_are_looked_for(rest, id);
        let all = coupons_of(rest) + last;
        assert(all.contains(id) <==> coupons_of(rest).contains(id) || last.contains(id)) by {
            vstd::seq_lib::lemma_seq_concat_contains_all_elements(coupons_of(rest), last, id);
        }
        if coupons_of(rest).contains(id) {
            let i = choose|i: int| 0 <= i < rest.len() && (#[trigger] rest[i]).coupon_ids@.contains(id);
            assert(inputs[i].coupon_ids@.contains(id));
        }
        if last.contains(id) {
            assert(inputs[inputs.len() - 1].coupon_ids@.contains(id));
        }
        if exists|i: int| 0 <= i < inputs.len() && (#[trigger] inputs[i]).coupon_ids@.contains(id) {
            let i = choose|i: int| 0 <= i < inputs.len() && (#[trigger] inputs[i]).coupon_ids@.contains(id);
            if i < rest.len() {
                assert(rest[i].coupon_ids@.contains(id));
            }
        }
    }
}

/// Whether `result` tells rightly if an address is registered under a user.
pub open spec fn address_outcome(
    id: Uuid,
    user_id: Uuid,
    found: Option<User>,
    result: Result<(), OrderError>,
) -> bool {
    if found matches Some(user) && user.user_address_ids@.contains(id) {
        result is Ok
    } else {
        result matches Err(error) && error == (OrderError::AddressNotFound { id, user_id })
    }
}

/// Checks if an address is registered under a specific user, by what came of looking for the user:
/// nothing if there is none, or if the database failed.
pub fn validate_user_address(id: Uuid, user_id: Uuid, found: &Option<User>) -> (result: Result<(), OrderError>)
    ensures
        address_outcome(id, user_id, *found, result),
{
    match found {
        Some(user) => if holds(&user.user_address_ids, id) {
            Ok(())
        } else {
            Err(OrderError::AddressNotFound { id, user_id })
        },
        None => Err(OrderError::AddressNotFound { id, user_id }),
    }
}

/// Objects are in the system if and only if each of them was found. Otherwise the last one that was
/// not is complained of.
pub proof fn objects_are_there_if_each_was_found(
    kind: ObjectKind,
    object_ids: Seq<Uuid>,
    found: Vec<Uuid>,
    result: Result<(), OrderError>,
)
    requires
        objects_outcome(kind, object_ids, Ok(found), result),
    ensures
        result is Ok <==> forall|i: int| 0 <= i < object_ids.len() ==> found@.contains(#[trigger] object_ids[i]),
        result matches Err(error) ==> exists|i: int|
            0 <= i < object_ids.len() && error == (OrderError::NotPresent { kind, id: #[trigger] object_ids[i] })
                && !found@.contains(object_ids[i]) && forall|j: int|
                i < j < object_ids.len() ==> found@.contains(#[trigger] object_ids[j]),
{
    match result {
        Ok(()) => {
            assert forall|i: int| 0 <= i < object_ids.len() implies found@.contains(#[trigger] object_ids[i]) by {
                assert(object_ids.to_set().contains(object_ids[i]));
                assert(found@.to_set().contains(object_ids[i]));
            }
        },
        Err(error) => {
            let i = choose|i: int| #[trigger]
                last_missing(object_ids, found@, i) && error == (OrderError::NotPresent {
                    kind,
                    id: object_ids[i],
                });
            assert(!found@.contains(object_ids[i]));
        },
    }
}

/// Where the database fails to look for objects, they are not in the system, whatever they are.
pub proof fn objects_are_not_there_if_the_search_fails(
    kind: ObjectKind,
    object_ids: Seq<Uuid>,
    failure: FindFailure,
    result: Result<(), OrderError>,
)
    requires
        objects_outcome(kind, object_ids, Err(failure), result),
    ensures
        match failure {
            FindFailure::Find => result == Err::<(), OrderError>(OrderError::NonePresent { kind }),
            FindFailure::Collect { text } => result == Err::<(), OrderError>(OrderError::Reported { text }),
        },
{
}

/// The shipment method of each position is looked for, in the order of the positions.
pub proof fn all_shipment_methods_are_looked_for(inputs: Seq<OrderItemInput>)
    ensures
        shipment_methods_of(inputs).len() == inputs.len(),
        forall|i: int|
            0 <= i < inputs.len() ==> #[trigger] shipment_methods_of(inputs)[i] == inputs[i].shipment_method_id,
{
}

/// The coupons of positions are put together: none for no positions, its own for one, and for two
/// lists one after the other those of the one and then those of the other.
pub proof fn coupons_are_put_together(a: Seq<OrderItemInput>, b: Seq<OrderItemInput>, input: OrderItemInput)
    ensures
        coupons_of(Seq::<OrderItemInput>::empty()) == Seq::<Uuid>::empty(),
        coupons_of(seq![input]) == input.coupon_ids@,
        coupons_of(a + b) == coupons_of(a) + coupons_of(b),
    decreases b.len(),
{
    assert(seq![input].drop_last() =~= Seq::<OrderItemInput>::empty());
    assert(Seq::<Uuid>::empty() + input.coupon_ids@ =~= input.coupon_ids@);
    if b.len() > 0 {
        assert((a + b).drop_last() =~= a + b.drop_last());
        coupons_are_put_together(a, b.drop_last(), input);
        let last = b.last().coupon_ids@;
        assert(coupons_of(a) + coupons_of(b.drop_last()) + last =~= coupons_of(a) + (coupons_of(b.drop_last())
            + last));
    } else {
        assert(a + b =~= a);
        assert(coupons_of(a) + Seq::<Uuid>::empty() =~= coupons_of(a));
    }
}

/// An address passes if and only if the user was found and it is one of the user's addresses.
pub proof fn addresses_are_those_of_the_user(
    id: Uuid,
    user_id: Uuid,
    found: Option<User>,
    result: Result<(), OrderError>,
)
    requires
        address_outcome(id, user_id, found, result),
    ensures
        result is Ok <==> (found matches Some(user) && exists|i: int|
            0 <= i < user.user_address_ids@.len() && #[trigger] user.user_address_ids@[i] == id),
        result matches Err(error) ==> error == (OrderError::AddressNotFound { id, user_id }),
{
}

} // verus!
