//! The catalog: product variants that are on sale, their current versions and their tax rates.

use crate::error::{build_hash_map_error, reports, EntryKind, OrderError};
use crate::keys::{enumerates, keys_of, lemma_step};
use crate::model::{ProductVariant, ProductVariantVersion, TaxRate, TaxRateVersion};
use crate::uuid::Uuid;
use std::collections::HashMap;
use vstd::prelude::*;

verus! {

/// The product variants of a map that everybody may see.
pub open spec fn publicly_visible(map: Map<Uuid, ProductVariant>) -> Map<Uuid, ProductVariant> {
    map.restrict(map.dom().filter(|id: Uuid| map[id].is_publicly_visible))
}

/// Whether `result` holds the product variants that were found and may be seen, or the words of
/// the failure to look for them.
pub open spec fn product_variants_outcome(
    found: Result<HashMap<Uuid, ProductVariant>, String>,
    result: Result<HashMap<Uuid, ProductVariant>, OrderError>,
) -> bool {
    match found {
        Err(words) => reports(result, words),
        Ok(map) => result matches Ok(visible) && visible@ == publicly_visible(map@),
    }
}

/// Obtains product variants out of what the database found by their UUIDs.
///
/// Filters product variants which are non-publicly-visible.
pub fn query_product_variants_by_product_variant_ids(found: Result<HashMap<Uuid, ProductVariant>, String>) -> (result:
    Result<HashMap<Uuid, ProductVariant>, OrderError>)
    ensures
        product_variants_outcome(found, result),
{
    let map = match found {
        Err(text) => {
            return Err(OrderError::Reported { text });
        },
        Ok(map) => map,
    };
    let ids: Vec<Uuid> = keys_of(&map);
    let mut visible: HashMap<Uuid, ProductVariant> = HashMap::new();
    let mut i: usize = 0;
    while i < ids.len()
        invariant
            i <= ids@.len(),
            ids@.to_set() == map@.dom(),
            forall|id: Uuid| #[trigger]
                visible@.contains_key(id) <==> ids@.take(i as int).to_set().contains(id)
                    && map@[id].is_publicly_visible,
            forall|id: Uuid| #[trigger] visible@.contains_key(id) ==> visible@[id] == map@[id],
        decreases ids.len() - i,
    {
        let id: Uuid = ids[i];
        proof {
            lemma_step(ids@, i as int);
        }
        assert(map@.contains_key(id));
        let product_variant = *map.get(&id).unwrap();
        if product_variant.is_publicly_visible {
            visible.insert(id, product_variant);
        }
        i += 1;
    }
    assert(ids@.take(i as int) =~= ids@);
    assert(visible@ =~= publicly_visible(map@));
    Ok(visible)
}

/// The current versions of product variants.
pub open spec fn current_versions(map: Map<Uuid, ProductVariant>) -> Map<Uuid, ProductVariantVersion> {
    map.map_values(|product_variant: ProductVariant| product_variant.current_version)
}

/// Obtains current product variant versions using product variants.
pub fn query_product_variant_versions_by_product_variant_ids(
    product_variants_by_product_variant_ids: &HashMap<Uuid, ProductVariant>,
) -> (versions: HashMap<Uuid, ProductVariantVersion>)
    ensures
        versions@ == current_versions(product_variants_by_product_variant_ids@),
{
    let ghost variants = product_variants_by_product_variant_ids@;
    let ids: Vec<Uuid> = keys_of(product_variants_by_product_variant_ids);
    let mut versions: HashMap<Uuid, ProductVariantVersion> = HashMap::new();
    let mut i: usize = 0;
    while i < ids.len()
        invariant
            variants == product_variants_by_product_variant_ids@,
            i <= ids@.len(),
            ids@.to_set() == variants.dom(),
            versions@.dom() =~= ids@.take(i as int).to_set(),
            forall|id: Uuid| #[trigger]
                versions@.contains_key(id) ==> versions@[id] == variants[id].current_version,
        decreases ids.len() - i,
    {
        let id: Uuid = ids[i];
        proof {
            lemma_step(ids@, i as int);
        }
        assert(variants.contains_key(id));
        versions.insert(id, product_variants_by_product_variant_ids.get(&id).unwrap().current_version);
        i += 1;
    }
    assert(ids@.take(i as int) =~= ids@);
    assert(versions@ =~= current_versions(variants));
    versions
}

/// Whether `tax_rate_ids` are the tax rates of versions, one for each version.
pub open spec fn tax_rates_of(versions: Map<Uuid, ProductVariantVersion>, tax_rate_ids: Seq<Uuid>) -> bool {
    exists|ids: Seq<Uuid>| #[trigger]
        enumerates(ids, versions.dom()) && tax_rate_ids == ids.map_values(
            |id: Uuid| versions[id].tax_rate_id,
        )
}

/// Lists the tax rates of product variant versions.
pub fn tax_rate_ids(versions: &HashMap<Uuid, ProductVariantVersion>) -> (tax_rate_ids: Vec<Uuid>)
    ensures
        tax_rates_of(versions@, tax_rate_ids@),
{
    let ids: Vec<Uuid> = keys_of(versions);
    let mut tax_rate_ids: Vec<Uuid> = Vec::new();
    let mut i: usize = 0;
    while i < ids.len()
        invariant
            i <= ids@.len(),
            ids@.to_set() == versions@.dom(),
            tax_rate_ids@.len() == i,
            forall|j: int| 0 <= j < i ==> #[trigger] tax_rate_ids@[j] == versions@[ids@[j]].tax_rate_id,
        decreases ids.len() - i,
    {
        assert(ids@.to_set().contains(ids@[i as int]));
        assert(versions@.contains_key(ids@[i as int]));
        tax_rate_ids.push(versions.get(&ids[i]).unwrap().tax_rate_id);
        i += 1;
    }
    assert(tax_rate_ids@ =~= ids@.map_values(|id: Uuid| versions@[id].tax_rate_id));
    tax_rate_ids
}

/// Whether `result` holds the current version of the tax rate of each product variant, or the lack
/// of one of these tax rates.
pub open spec fn tax_rate_versions_outcome(
    versions: Map<Uuid, ProductVariantVersion>,
    tax_rates: Map<Uuid, TaxRate>,
    result: Result<HashMap<Uuid, TaxRateVersion>, OrderError>,
) -> bool {
    match result {
        Ok(map) => {
            &&& map@.dom() == versions.dom()
            &&& forall|id: Uuid| #[trigger]
                versions.contains_key(id) ==> tax_rates.contains_key(versions[id].tax_rate_id) && map@[id]
                    == tax_rates[versions[id].tax_rate_id].current_version
        },
        Err(error) => exists|id: Uuid| #[trigger]
            versions.contains_key(id) && !tax_rates.contains_key(versions[id].tax_rate_id) && error == (
            OrderError::NotInHashMap { entry: EntryKind::TaxRate, id }),
    }
}

/// Whether `result` holds the current versions of the tax rates that were found, or the words of
/// the failure to look for them.
pub open spec fn tax_rates_outcome(
    versions: Map<Uuid, ProductVariantVersion>,
    found: Result<HashMap<Uuid, TaxRate>, String>,
    result: Result<HashMap<Uuid, TaxRateVersion>, OrderError>,
) -> bool {
    match found {
        Err(words) => reports(result, words),
        Ok(tax_rates) => tax_rate_versions_outcome(versions, tax_rates@, result),
    }
}

/// Obtains current tax rate version for tax rate in product variant versions, out of what the
/// database found.
pub fn query_tax_rate_versions_by_product_variant_ids(
    product_variant_versions_by_product_variant_ids: &HashMap<Uuid, ProductVariantVersion>,
    found: Result<HashMap<Uuid, TaxRate>, String>,
) -> (result: Result<HashMap<Uuid, TaxRateVersion>, OrderError>)
    ensures
        tax_rates_outcome(product_variant_versions_by_product_variant_ids@, found, result),
{
    let tax_rates = match found {
        Err(text) => {
            return Err(OrderError::Reported { text });
        },
        Ok(tax_rates) => tax_rates,
    };
    let ghost versions = product_variant_versions_by_product_variant_ids@;
    let ids: Vec<Uuid> = keys_of(product_variant_versions_by_product_variant_ids);
    let mut map: HashMap<Uuid, TaxRateVersion> = HashMap::new();
    let mut i: usize = 0;
    while i < ids.len()
        invariant
            versions == product_variant_versions_by_product_variant_ids@,
            found == Ok::<HashMap<Uuid, TaxRate>, String>(tax_rates),
            i <= ids@.len(),
            ids@.to_set() == versions.dom(),
            map@.dom() =~= ids@.take(i as int).to_set(),
            forall|id: Uuid| #[trigger]
                map@.contains_key(id) ==> tax_rates@.contains_key(versions[id].tax_rate_id) && map@[id]
                    == tax_rates@[versions[id].tax_rate_id].current_version,
        decreases ids.len() - i,
    {
        let id: Uuid = ids[i];
        proof {
            lemma_step(ids@, i as int);
        }
        assert(versions.contains_key(id));
        let tax_rate_id: Uuid = product_variant_versions_by_product_variant_ids.get(&id).unwrap().tax_rate_id;
        match tax_rates.get(&tax_rate_id) {
            Some(tax_rate) => {
                map.insert(id, tax_rate.current_version);
            },
            None => {
                return Err(build_hash_map_error(EntryKind::TaxRate, id));
            },
        }
        i += 1;
    }
    proof {
        assert(ids@.take(i as int) =~= ids@);
        assert forall|id: Uuid| #[trigger] versions.contains_key(id) implies map@.contains_key(id) by {
            assert(ids@.to_set().contains(id));
        }
    }
    Ok(map)
}

/// Of the product variants that were found, those that are publicly visible are kept as they are, and
/// no others are.
pub proof fn nothing_visible_is_lost(
    found: HashMap<Uuid, ProductVariant>,
    result: Result<HashMap<Uuid, ProductVariant>, OrderError>,
)
    requires
        product_variants_outcome(Ok(found), result),
    ensures
        result matches Ok(kept) && forall|id: Uuid|
            #![trigger kept@.contains_key(id)]
            #![trigger found@.contains_key(id)]
            {
                &&& kept@.contains_key(id) <==> found@.contains_key(id) && found@[id].is_publicly_visible
                &&& kept@.contains_key(id) ==> kept@[id] == found@[id]
            },
{
}

/// What is publicly visible of a map are the entries of it that say so.
pub proof fn visible_are_those_that_say_so(map: Map<Uuid, ProductVariant>, id: Uuid)
    ensures
        publicly_visible(map).contains_key(id) <==> map.contains_key(id) && map[id].is_publicly_visible,
        publicly_visible(map).contains_key(id) ==> publicly_visible(map)[id] == map[id],
{
}

/// Each product variant has its current version, and nothing else has one.
pub proof fn versions_are_those_of_the_product_variants(map: Map<Uuid, ProductVariant>, id: Uuid)
    ensures
        current_versions(map).contains_key(id) <==> map.contains_key(id),
        map.contains_key(id) ==> current_versions(map)[id].id == map[id].current_version.id
            && current_versions(map)[id].price == map[id].current_version.price
            && current_versions(map)[id].tax_rate_id == map[id].current_version.tax_rate_id,
{
}

/// The tax rate of each product variant version is looked for, no other is, and there are as many
/// UUIDs as versions.
pub proof fn all_tax_rates_are_looked_for(
    versions: Map<Uuid, ProductVariantVersion>,
    tax_rate_ids: Seq<Uuid>,
    id: Uuid,
)
    requires
        tax_rates_of(versions, tax_rate_ids),
    ensures
        tax_rate_ids.contains(id) <==> exists|variant: Uuid| #[trigger]
            versions.contains_key(variant) && versions[variant].tax_rate_id == id,
        tax_rate_ids.len() == versions.dom().len(),
{
    let ids = choose|ids: Seq<Uuid>| #[trigger]
        enumerates(ids, versions.dom()) && tax_rate_ids == ids.map_values(
            |id: Uuid| versions[id].tax_rate_id,
        );
    ids.unique_seq_to_set();
    if tax_rate_ids.contains(id) {
        let i = choose|i: int| 0 <= i < tax_rate_ids.len() && tax_rate_ids[i] == id;
        assert(ids.to_set().contains(ids[i]));
        assert(versions.contains_key(ids[i]));
    }
    if exists|variant: Uuid| #[trigger]
        versions.contains_key(variant) && versions[variant].tax_rate_id == id {
        let variant = choose|variant: Uuid| #[trigger]
            versions.contains_key(variant) && versions[variant].tax_rate_id == id;
        assert(ids.to_set().contains(variant));
        let i = choose|i: int| 0 <= i < ids.len() && ids[i] == variant;
        assert(tax_rate_ids[i] == id);
    }
}

/// Each product variant version gets the current version of the tax rate that it names. That fails if
/// and only if one of these tax rates was not found, and then the error names a product variant whose
/// tax rate was not.
pub proof fn versions_get_the_tax_rates_they_name(
    versions: Map<Uuid, ProductVariantVersion>,
    tax_rates: HashMap<Uuid, TaxRate>,
    result: Result<HashMap<Uuid, TaxRateVersion>, OrderError>,
)
    requires
        tax_rates_outcome(versions, Ok(tax_rates), result),
    ensures
        result is Ok <==> forall|id: Uuid| #[trigger]
            versions.contains_key(id) ==> tax_rates@.contains_key(versions[id].tax_rate_id),
        match result {
            Ok(map) => forall|id: Uuid|
                #![trigger map@.contains_key(id)]
                #![trigger versions.contains_key(id)]
                {
                    &&& map@.contains_key(id) <==> versions.contains_key(id)
                    &&& map@.contains_key(id) ==> map@[id]
                        == tax_rates@[versions[id].tax_rate_id].current_version
                },
            Err(error) => error matches OrderError::NotInHashMap { entry: EntryKind::TaxRate, id }
                && versions.contains_key(id) && !tax_rates@.contains_key(versions[id].tax_rate_id),
        },
{
}

} // verus!
