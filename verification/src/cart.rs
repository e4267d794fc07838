//! The shopping cart: which product variants an order is about, and how many items of each.

use crate::error::{build_hash_map_error, reports, EntryKind, OrderError};
use crate::keys::{is_last, lemma_contains_pushed, lemma_has_last, lemma_last_of_pushed};
use crate::model::{views, OrderItemInput, OrderItemInputView, Representation, Response};
use crate::uuid::{uuid_text, uuid_to_string, Uuid};
use std::collections::HashMap;
use vstd::prelude::*;

verus! {

/// An item of a shopping cart, as the shopping cart service describes it.
#[derive(Clone, Copy, Debug)]
pub struct ShoppingCartItem {
    pub id: Uuid,
    pub product_variant_id: Uuid,
    pub count: i64,
}

/// An entity of the shopping cart service.
#[derive(Debug)]
pub enum ShoppingCartEntity {
    /// A user, with the items of the shopping cart.
    User { shoppingcart_items: Vec<ShoppingCartItem> },
    /// Any other entity, as its debug output.
    Other { text: String },
}

/// Whether a representation names the entity of a type and a UUID.
pub open spec fn represents(representation: Representation, typename: Seq<char>, id: Uuid) -> bool {
    &&& representation.typename@ == typename
    &&& representation.id@ == uuid_text(id)
}

/// Names the entity that the shopping cart of a user is asked of.
pub fn shopping_cart_representations(user_id: Uuid) -> (representations: Vec<Representation>)
    ensures
        representations@.len() == 1,
        represents(representations@[0], "User"@, user_id),
{
    let mut representations: Vec<Representation> = Vec::new();
    representations.push(Representation { typename: "User".to_string(), id: uuid_to_string(user_id) });
    representations
}

/// A signed count, as the unsigned number of the same bits.
pub open spec fn unsigned_count(count: i64) -> u64 {
    if count >= 0 {
        count as u64
    } else {
        (count + 0x1_0000_0000_0000_0000) as u64
    }
}

/// Product variants and counts by the UUIDs of shopping cart items. Of several items with one
/// UUID, the last one counts.
pub open spec fn ids_and_counts_of(items: Seq<ShoppingCartItem>) -> Map<Uuid, (Uuid, u64)>
    decreases items.len(),
{
    if items.len() == 0 {
        Map::empty()
    } else {
        ids_and_counts_of(items.drop_last()).insert(
            items.last().id,
            (items.last().product_variant_id, unsigned_count(items.last().count)),
        )
    }
}

/// Unwraps enum and maps the result to a hash map of shopping cart item ids as keys and
/// `(product_variant_id, count)` as values.
pub fn into_ids_and_counts_by_shopping_cart_item_ids(ids_and_counts_enum: ShoppingCartEntity) -> (result:
    Result<HashMap<Uuid, (Uuid, u64)>, OrderError>)
    ensures
        match ids_and_counts_enum {
            ShoppingCartEntity::User { shoppingcart_items } => result matches Ok(map) && map@
                == ids_and_counts_of(shoppingcart_items@),
            ShoppingCartEntity::Other { text } => result matches Err(OrderError::NotAUser { entity })
                && entity@ == text@,
        },
{
    match ids_and_counts_enum {
        ShoppingCartEntity::User { shoppingcart_items } => {
            let mut map: HashMap<Uuid, (Uuid, u64)> = HashMap::new();
            let mut i: usize = 0;
            while i < shoppingcart_items.len()
                invariant
                    i <= shoppingcart_items@.len(),
                    map@ == ids_and_counts_of(shoppingcart_items@.take(i as int)),
                decreases shoppingcart_items.len() - i,
            {
                let item = shoppingcart_items[i];
                let signed: i64 = item.count;
                let count: u64 = #[verifier::truncate]
                (signed as u64);
                assert(signed < 0 ==> (signed as u64) == signed + 0x1_0000_0000_0000_0000) by (bit_vector);
                assert(shoppingcart_items@.take(i + 1).drop_last() =~= shoppingcart_items@.take(i as int));
                map.insert(item.id, (item.product_variant_id, count));
                i += 1;
            }
            assert(shoppingcart_items@.take(i as int) =~= shoppingcart_items@);
            Ok(map)
        },
        ShoppingCartEntity::Other { text } => Err(OrderError::NotAUser { entity: text }),
    }
}

/// Whether every position is about an item of the shopping cart.
pub open spec fn all_in_cart(inputs: Seq<OrderItemInputView>, cart: Map<Uuid, (Uuid, u64)>) -> bool {
    forall|i: int| 0 <= i < inputs.len() ==> #[trigger] cart.contains_key(inputs[i].shopping_cart_item_id)
}

/// Whether `error` complains of the first position that is not about an item of the cart.
pub open spec fn not_in_cart(
    inputs: Seq<OrderItemInputView>,
    cart: Map<Uuid, (Uuid, u64)>,
    error: OrderError,
) -> bool {
    exists|i: int| #[trigger]
        first_unknown(inputs, cart, i) && error == (OrderError::NotInHashMap {
            entry: EntryKind::IdAndCount,
            id: inputs[i].shopping_cart_item_id,
        })
}

/// Whether the position at `i` is the first that is not about an item of the cart.
pub open spec fn first_unknown(
    inputs: Seq<OrderItemInputView>,
    cart: Map<Uuid, (Uuid, u64)>,
    i: int,
) -> bool {
    &&& 0 <= i < inputs.len()
    &&& !cart.contains_key(inputs[i].shopping_cart_item_id)
    &&& all_in_cart(inputs.take(i), cart)
}

/// The counts of positions by product variants. Of several positions with one product variant, the
/// last one counts.
pub open spec fn counts_of(inputs: Seq<OrderItemInputView>, cart: Map<Uuid, (Uuid, u64)>) -> Map<Uuid, u64>
    decreases inputs.len(),
{
    if inputs.len() == 0 {
        Map::empty()
    } else {
        let (id, count) = cart[inputs.last().shopping_cart_item_id];
        counts_of(inputs.drop_last(), cart).insert(id, count)
    }
}

/// Positions by product variants. Of several positions with one product variant, the last one
/// counts.
pub open spec fn inputs_of(inputs: Seq<OrderItemInputView>, cart: Map<Uuid, (Uuid, u64)>) -> Map<
    Uuid,
    OrderItemInputView,
>
    decreases inputs.len(),
{
    if inputs.len() == 0 {
        Map::empty()
    } else {
        inputs_of(inputs.drop_last(), cart).insert(
            cart[inputs.last().shopping_cart_item_id].0,
            inputs.last(),
        )
    }
}

/// What the values of a map say.
pub open spec fn viewed(map: Map<Uuid, OrderItemInput>) -> Map<Uuid, OrderItemInputView> {
    map.map_values(|input: OrderItemInput| input@)
}

/// Filters shopping cart items: `ids_and_counts` to map to `order_item_inputs`.
/// Builds hash map which maps product variant ids to counts.
pub fn build_counts_by_product_variant_ids(
    order_item_inputs: &Vec<OrderItemInput>,
    ids_and_counts: &HashMap<Uuid, (Uuid, u64)>,
) -> (result: Result<HashMap<Uuid, u64>, OrderError>)
    ensures
        match result {
            Ok(counts) => all_in_cart(views(order_item_inputs@), ids_and_counts@) && counts@ == counts_of(
                views(order_item_inputs@),
                ids_and_counts@,
            ),
            Err(error) => not_in_cart(views(order_item_inputs@), ids_and_counts@, error),
        },
{
    let ghost inputs = views(order_item_inputs@);
    let mut counts: HashMap<Uuid, u64> = HashMap::new();
    let mut i: usize = 0;
    while i < order_item_inputs.len()
        invariant
            inputs == views(order_item_inputs@),
            i <= inputs.len(),
            all_in_cart(inputs.take(i as int), ids_and_counts@),
            counts@ == counts_of(inputs.take(i as int), ids_and_counts@),
        decreases order_item_inputs.len() - i,
    {
        let shopping_cart_item_id: Uuid = order_item_inputs[i].shopping_cart_item_id;
        assert(inputs[i as int] == order_item_inputs@[i as int]@);
        match ids_and_counts.get(&shopping_cart_item_id) {
            Some(id_and_count) => {
                counts.insert(id_and_count.0, id_and_count.1);
            },
            None => {
                assert(first_unknown(inputs, ids_and_counts@, i as int));
                return Err(build_hash_map_error(EntryKind::IdAndCount, shopping_cart_item_id));
            },
        }
        assert(inputs.take(i + 1).drop_last() =~= inputs.take(i as int));
        proof {
            lemma_all_in_cart_extends(inputs, ids_and_counts@, i as int);
        }
        i += 1;
    }
    assert(inputs.take(i as int) =~= inputs);
    Ok(counts)
}

proof fn lemma_all_in_cart_extends(inputs: Seq<OrderItemInputView>, cart: Map<Uuid, (Uuid, u64)>, i: int)
    requires
        0 <= i < inputs.len(),
        all_in_cart(inputs.take(i), cart),
        cart.contains_key(inputs[i].shopping_cart_item_id),
    ensures
        all_in_cart(inputs.take(i + 1), cart),
{
    assert forall|j: int| 0 <= j < i + 1 implies #[trigger] cart.contains_key(
        inputs.take(i + 1)[j].shopping_cart_item_id,
    ) by {
        if j < i {
            assert(cart.contains_key(inputs.take(i)[j].shopping_cart_item_id));
        }
    }
}

/// Filters shopping cart items: `ids_and_counts` to map to `order_item_inputs`.
/// Builds hash map which maps product variant ids to order item inputs.
pub fn build_order_item_inputs_by_product_variant_ids(
    order_item_inputs: &Vec<OrderItemInput>,
    ids_and_counts: &HashMap<Uuid, (Uuid, u64)>,
) -> (result: Result<HashMap<Uuid, OrderItemInput>, OrderError>)
    ensures
        match result {
            Ok(map) => all_in_cart(views(order_item_inputs@), ids_and_counts@) && viewed(map@) == inputs_of(
                views(order_item_inputs@),
                ids_and_counts@,
            ),
            Err(error) => not_in_cart(views(order_item_inputs@), ids_and_counts@, error),
        },
{
    let ghost inputs = views(order_item_inputs@);
    let mut map: HashMap<Uuid, OrderItemInput> = HashMap::new();
    assert(viewed(map@) =~= Map::empty());
    let mut i: usize = 0;
    while i < order_item_inputs.len()
        invariant
            inputs == views(order_item_inputs@),
            i <= inputs.len(),
            all_in_cart(inputs.take(i as int), ids_and_counts@),
            viewed(map@) == inputs_of(inputs.take(i as int), ids_and_counts@),
        decreases order_item_inputs.len() - i,
    {
        let shopping_cart_item_id: Uuid = order_item_inputs[i].shopping_cart_item_id;
        assert(inputs[i as int] == order_item_inputs@[i as int]@);
        let ghost before = map@;
        match ids_and_counts.get(&shopping_cart_item_id) {
            Some(id_and_count) => {
                let order_item_input = order_item_inputs[i].clone();
                map.insert(id_and_count.0, order_item_input);
                assert(viewed(map@) =~= viewed(before).insert(id_and_count.0, inputs[i as int]));
            },
            None => {
                assert(first_unknown(inputs, ids_and_counts@, i as int));
                return Err(build_hash_map_error(EntryKind::IdAndCount, shopping_cart_item_id));
            },
        }
        assert(inputs.take(i + 1).drop_last() =~= inputs.take(i as int));
        proof {
            lemma_all_in_cart_extends(inputs, ids_and_counts@, i as int);
        }
        i += 1;
    }
    assert(inputs.take(i as int) =~= inputs);
    Ok(map)
}

/// Counts and positions, each by product variants.
pub type CountsAndInputs = (HashMap<Uuid, u64>, HashMap<Uuid, OrderItemInput>);

/// Whether `result` is what the answer of the shopping cart service makes of positions.
pub open spec fn cart_outcome(
    inputs: Seq<OrderItemInputView>,
    response: Response<Vec<Option<ShoppingCartEntity>>>,
    result: Result<CountsAndInputs, OrderError>,
) -> bool {
    match response {
        Err(words) => reports(result, words),
        Ok(None) => result matches Err(OrderError::EmptyCartResponse),
        Ok(Some(entities)) => match entities@[0] {
            None => result matches Err(OrderError::EmptyCartResponse),
            Some(ShoppingCartEntity::Other { text }) => result matches Err(OrderError::NotAUser { entity })
                && entity@ == text@,
            Some(ShoppingCartEntity::User { shoppingcart_items }) => {
                let cart = ids_and_counts_of(shoppingcart_items@);
                match result {
                    Ok((counts, map)) => {
                        &&& all_in_cart(inputs, cart)
                        &&& counts@ == counts_of(inputs, cart)
                        &&& viewed(map@) == inputs_of(inputs, cart)
                    },
                    Err(error) => not_in_cart(inputs, cart, error),
                }
            },
        },
    }
}

/// Whether an answer of the shopping cart service can be read: its data, if there are any, hold
/// an entity, or the lack of one.
pub open spec fn cart_readable(response: Response<Vec<Option<ShoppingCartEntity>>>) -> bool {
    response matches Ok(Some(entities)) ==> entities@.len() > 0
}

/// Obtains product variants from shopping cart item ids out of the answer of the shopping cart
/// service.
pub fn query_counts_by_product_variant_ids(
    order_item_inputs: &Vec<OrderItemInput>,
    response: Response<Vec<Option<ShoppingCartEntity>>>,
) -> (result: Result<CountsAndInputs, OrderError>)
    requires
        cart_readable(response),
    ensures
        cart_outcome(views(order_item_inputs@), response, result),
{
    let mut entities = match response {
        Err(text) => {
            return Err(OrderError::Reported { text });
        },
        Ok(None) => {
            return Err(OrderError::EmptyCartResponse);
        },
        Ok(Some(entities)) => entities,
    };
    let entity = match entities.remove(0) {
        None => {
            return Err(OrderError::EmptyCartResponse);
        },
        Some(entity) => entity,
    };
    let ids_and_counts = match into_ids_and_counts_by_shopping_cart_item_ids(entity) {
        Err(error) => {
            return Err(error);
        },
        Ok(ids_and_counts) => ids_and_counts,
    };
    let counts = match build_counts_by_product_variant_ids(order_item_inputs, &ids_and_counts) {
        Err(error) => {
            return Err(error);
        },
        Ok(counts) => counts,
    };
    match build_order_item_inputs_by_product_variant_ids(order_item_inputs, &ids_and_counts) {
        Err(error) => Err(error),
        Ok(map) => Ok((counts, map)),
    }
}

/// The count and the position of a product variant stem from the same item of the shopping cart,
/// and every product variant that has the one has the other.
pub proof fn counts_and_inputs_agree(inputs: Seq<OrderItemInputView>, cart: Map<Uuid, (Uuid, u64)>)
    requires
        all_in_cart(inputs, cart),
    ensures
        counts_of(inputs, cart).dom() == inputs_of(inputs, cart).dom(),
        forall|id: Uuid| #[trigger]
            inputs_of(inputs, cart).contains_key(id) ==> {
                let input = inputs_of(inputs, cart)[id];
                &&& inputs.contains(input)
                &&& cart[input.shopping_cart_item_id] == (id, counts_of(inputs, cart)[id])
            },
    decreases inputs.len(),
{
    if inputs.len() > 0 {
        let rest = inputs.drop_last();
        assert(all_in_cart(rest, cart)) by {
            assert forall|i: int| 0 <= i < rest.len() implies #[trigger] cart.contains_key(
                rest[i].shopping_cart_item_id,
            ) by {
                assert(cart.contains_key(inputs[i].shopping_cart_item_id));
            }
        }
        counts_and_inputs_agree(rest, cart);
        assert(counts_of(inputs, cart).dom() =~= inputs_of(inputs, cart).dom());
        assert forall|id: Uuid| #[trigger] inputs_of(inputs, cart).contains_key(id) implies {
            let input = inputs_of(inputs, cart)[id];
            &&& inputs.contains(input)
            &&& cart[input.shopping_cart_item_id] == (id, counts_of(inputs, cart)[id])
        } by {
            if id == cart[inputs.last().shopping_cart_item_id].0 {
                assert(inputs[inputs.len() - 1] == inputs.last());
            } else {
                assert(inputs_of(rest, cart).contains_key(id));
                let input = inputs_of(rest, cart)[id];
                let i = choose|i: int| 0 <= i < rest.len() && rest[i] == input;
                assert(inputs[i] == input);
            }
        }
    } else {
        assert(counts_of(inputs, cart).dom() =~= inputs_of(inputs, cart).dom());
    }
}

/// Every position has its product variant among the counts.
pub proof fn every_input_is_counted(inputs: Seq<OrderItemInputView>, cart: Map<Uuid, (Uuid, u64)>, i: int)
    requires
        0 <= i < inputs.len(),
    ensures
        counts_of(inputs, cart).contains_key(cart[inputs[i].shopping_cart_item_id].0),
    decreases inputs.len(),
{
    if i < inputs.len() - 1 {
        every_input_is_counted(inputs.drop_last(), cart, i);
    }
}

/// The UUIDs of shopping cart items.
pub open spec fn item_ids(items: Seq<ShoppingCartItem>) -> Seq<Uuid> {
    items.map_values(|item: ShoppingCartItem| item.id)
}

/// A shopping cart is read by the UUIDs of its items and no others, and of several items with one
/// UUID the last one counts: its product variant and its count are read as they are, a negative count
/// as the number of the same bits.
pub proof fn last_items_count(items: Seq<ShoppingCartItem>)
    ensures
        forall|id: Uuid| #[trigger] ids_and_counts_of(items).contains_key(id) <==> item_ids(items).contains(id),
        forall|id: Uuid, i: int| #[trigger]
            is_last(item_ids(items), id, i) ==> {
                &&& ids_and_counts_of(items)[id].0 == items[i].product_variant_id
                &&& items[i].count >= 0 ==> ids_and_counts_of(items)[id].1 == items[i].count
                &&& items[i].count < 0 ==> ids_and_counts_of(items)[id].1 == items[i].count
                    + 0x1_0000_0000_0000_0000
            },
    decreases items.len(),
{
    if items.len() > 0 {
        let rest = items.drop_last();
        let (ids, rest_ids) = (item_ids(items), item_ids(rest));
        last_items_count(rest);
        assert(ids =~= rest_ids.push(items.last().id));
        assert forall|id: Uuid| #[trigger] ids_and_counts_of(items).contains_key(id) <==> ids.contains(id) by {
            lemma_contains_pushed(rest_ids, items.last().id, id);
            assert(ids_and_counts_of(rest).contains_key(id) <==> rest_ids.contains(id));
        }
        assert forall|id: Uuid, i: int| #[trigger] is_last(ids, id, i) implies {
            &&& ids_and_counts_of(items)[id].0 == items[i].product_variant_id
            &&& items[i].count >= 0 ==> ids_and_counts_of(items)[id].1 == items[i].count
            &&& items[i].count < 0 ==> ids_and_counts_of(items)[id].1 == items[i].count
                + 0x1_0000_0000_0000_0000
        } by {
            if i < rest.len() {
                lemma_last_of_pushed(rest_ids, items.last().id, id, i);
            }
        }
    }
}

/// The product variants that positions are about.
pub open spec fn variant_ids(inputs: Seq<OrderItemInputView>, cart: Map<Uuid, (Uuid, u64)>) -> Seq<Uuid> {
    inputs.map_values(|input: OrderItemInputView| cart[input.shopping_cart_item_id].0)
}

/// Counts and positions are known of the product variants that positions are about and no others,
/// and of several positions with one product variant the last one counts.
pub proof fn last_positions_count(inputs: Seq<OrderItemInputView>, cart: Map<Uuid, (Uuid, u64)>)
    ensures
        forall|id: Uuid| #[trigger]
            counts_of(inputs, cart).contains_key(id) <==> variant_ids(inputs, cart).contains(id),
        forall|id: Uuid| #[trigger]
            inputs_of(inputs, cart).contains_key(id) <==> variant_ids(inputs, cart).contains(id),
        forall|id: Uuid, i: int| #[trigger]
            is_last(variant_ids(inputs, cart), id, i) ==> counts_of(inputs, cart)[id]
                == cart[inputs[i].shopping_cart_item_id].1 && inputs_of(inputs, cart)[id] == inputs[i],
    decreases inputs.len(),
{
    if inputs.len() > 0 {
        let rest = inputs.drop_last();
        let last_id = cart[inputs.last().shopping_cart_item_id].0;
        let (ids, rest_ids) = (variant_ids(inputs, cart), variant_ids(rest, cart));
        last_positions_count(rest, cart);
        assert(ids =~= rest_ids.push(last_id));
        assert forall|id: Uuid| ids.contains(id) <==> #[trigger] rest_ids.contains(id) || id == last_id by {
            lemma_contains_pushed(rest_ids, last_id, id);
        }
        assert forall|id: Uuid| #[trigger] counts_of(inputs, cart).contains_key(id) <==> ids.contains(id) by {
            assert(counts_of(rest, cart).contains_key(id) <==> rest_ids.contains(id));
        }
        assert forall|id: Uuid| #[trigger] inputs_of(inputs, cart).contains_key(id) <==> ids.contains(id) by {
            assert(inputs_of(rest, cart).contains_key(id) <==> rest_ids.contains(id));
        }
        assert forall|id: Uuid, i: int| #[trigger] is_last(ids, id, i) implies counts_of(inputs, cart)[id]
            == cart[inputs[i].shopping_cart_item_id].1 && inputs_of(inputs, cart)[id] == inputs[i] by {
            if i < rest.len() {
                lemma_last_of_pushed(rest_ids, last_id, id, i);
            }
        }
    }
}

/// Whether the position at `i` is about the item at `k` of a shopping cart, and no later position is
/// about the same product variant.
pub open spec fn settles(
    inputs: Seq<OrderItemInputView>,
    items: Seq<ShoppingCartItem>,
    i: int,
    k: int,
) -> bool {
    &&& 0 <= i < inputs.len()
    &&& is_last(item_ids(items), inputs[i].shopping_cart_item_id, k)
    &&& forall|j: int, l: int|
        #![trigger inputs[j], items[l]]
        i < j < inputs.len() && is_last(item_ids(items), inputs[j].shopping_cart_item_id, l)
            ==> items[l].product_variant_id != items[k].product_variant_id
}

/// The positions of an order are filled from the shopping cart if and only if the cart holds an item
/// for each of them. A product variant has the count and the position that settle it; without one, it
/// has neither. Otherwise the first position that has no item is complained of.
pub proof fn positions_are_filled_from_the_cart(
    inputs: Seq<OrderItemInputView>,
    entities: Vec<Option<ShoppingCartEntity>>,
    items: Vec<ShoppingCartItem>,
    result: Result<CountsAndInputs, OrderError>,
)
    requires
        entities@.len() > 0,
        entities@[0] == Some(ShoppingCartEntity::User { shoppingcart_items: items }),
        cart_outcome(inputs, Ok(Some(entities)), result),
    ensures
        result is Ok <==> forall|i: int|
            0 <= i < inputs.len() ==> item_ids(items@).contains((#[trigger] inputs[i]).shopping_cart_item_id),
        result matches Ok((counts, positions)) ==> {
            &&& forall|i: int, k: int| #[trigger]
                settles(inputs, items@, i, k) ==> {
                    let id = items@[k].product_variant_id;
                    &&& counts@.contains_key(id)
                    &&& items@[k].count >= 0 ==> counts@[id] == items@[k].count
                    &&& items@[k].count < 0 ==> counts@[id] == items@[k].count + 0x1_0000_0000_0000_0000
                    &&& positions@.contains_key(id)
                    &&& positions@[id].shopping_cart_item_id == inputs[i].shopping_cart_item_id
                    &&& positions@[id].coupon_ids@ == inputs[i].coupon_ids
                    &&& positions@[id].shipment_method_id == inputs[i].shipment_method_id
                }
            &&& forall|id: Uuid| #[trigger]
                counts@.contains_key(id) ==> exists|i: int, k: int| #[trigger]
                    settles(inputs, items@, i, k) && items@[k].product_variant_id == id
            &&& forall|id: Uuid| #[trigger]
                positions@.contains_key(id) ==> exists|i: int, k: int| #[trigger]
                    settles(inputs, items@, i, k) && items@[k].product_variant_id == id
        },
        result matches Err(error) ==> exists|i: int|
            0 <= i < inputs.len() && error == (OrderError::NotInHashMap {
                entry: EntryKind::IdAndCount,
                id: (#[trigger] inputs[i]).shopping_cart_item_id,
            }) && !item_ids(items@).contains(inputs[i].shopping_cart_item_id) && forall|j: int|
                0 <= j < i ==> item_ids(items@).contains((#[trigger] inputs[j]).shopping_cart_item_id),
{
    let cart = ids_and_counts_of(items@);
    last_items_count(items@);
    last_positions_count(inputs, cart);
    let variants = variant_ids(inputs, cart);
    if let Err(error) = result {
        let i = choose|i: int| #[trigger]
            first_unknown(inputs, cart, i) && error == (OrderError::NotInHashMap {
                entry: EntryKind::IdAndCount,
                id: inputs[i].shopping_cart_item_id,
            });
        assert(!cart.contains_key(inputs[i].shopping_cart_item_id));
        assert forall|j: int| 0 <= j < i implies item_ids(items@).contains(
            (#[trigger] inputs[j]).shopping_cart_item_id,
        ) by {
            assert(cart.contains_key(inputs.take(i)[j].shopping_cart_item_id));
        }
    }
    if let Ok((counts, positions)) = result {
        assert forall|i: int| 0 <= i < inputs.len() implies item_ids(items@).contains(
            (#[trigger] inputs[i]).shopping_cart_item_id,
        ) by {
            assert(cart.contains_key(inputs[i].shopping_cart_item_id));
        }
        assert forall|i: int, k: int| #[trigger] settles(inputs, items@, i, k) implies {
            &&& is_last(variants, items@[k].product_variant_id, i)
            &&& positions@.contains_key(items@[k].product_variant_id)
            &&& viewed(positions@)[items@[k].product_variant_id]
                == positions@[items@[k].product_variant_id]@
        } by {
            let id = items@[k].product_variant_id;
            assert(variants[i] == id);
            assert forall|j: int| i < j < variants.len() implies variants[j] != id by {
                lemma_has_last(item_ids(items@), inputs[j].shopping_cart_item_id);
                let l = choose|l: int| is_last(item_ids(items@), inputs[j].shopping_cart_item_id, l);
                assert(items@[l].product_variant_id != id);
            }
            assert(variants.contains(id));
            assert(inputs_of(inputs, cart).contains_key(id));
            assert(viewed(positions@).contains_key(id));
        }
        assert forall|id: Uuid| variants.contains(id) implies exists|i: int, k: int| #[trigger]
            settles(inputs, items@, i, k) && items@[k].product_variant_id == id by {
            lemma_has_last(variants, id);
            let i = choose|i: int| is_last(variants, id, i);
            lemma_has_last(item_ids(items@), inputs[i].shopping_cart_item_id);
            let k = choose|k: int| is_last(item_ids(items@), inputs[i].shopping_cart_item_id, k);
            assert forall|j: int, l: int|
                #![trigger inputs[j], items@[l]]
                i < j < inputs.len() && is_last(item_ids(items@), inputs[j].shopping_cart_item_id, l) implies
                items@[l].product_variant_id != items@[k].product_variant_id by {
                assert(variants[j] == items@[l].product_variant_id);
            }
            assert(settles(inputs, items@, i, k));
        }
        assert forall|id: Uuid| #[trigger] positions@.contains_key(id) implies variants.contains(id) by {
            assert(viewed(positions@).contains_key(id));
        }
    }
}

/// Without a user's shopping cart, no position is filled: an error on the way is passed on, an answer
/// without data or without the entity is empty, and another entity is quoted.
pub proof fn nothing_is_filled_without_a_cart(
    inputs: Seq<OrderItemInputView>,
    response: Response<Vec<Option<ShoppingCartEntity>>>,
    result: Result<CountsAndInputs, OrderError>,
)
    requires
        cart_readable(response),
        cart_outcome(inputs, response, result),
    ensures
        match response {
            Err(words) => result == Err::<CountsAndInputs, OrderError>(OrderError::Reported { text: words }),
            Ok(None) => result matches Err(OrderError::EmptyCartResponse),
            Ok(Some(entities)) => match entities@[0] {
                None => result matches Err(OrderError::EmptyCartResponse),
                Some(ShoppingCartEntity::Other { text }) => result matches Err(OrderError::NotAUser { entity })
                    && entity@ == text@,
                Some(ShoppingCartEntity::User { .. }) => true,
            },
        },
{
}

} // verus!
