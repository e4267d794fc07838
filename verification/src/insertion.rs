//! Insertion of orders: what the database says of an order that it was given.

use crate::error::OrderError;
use crate::uuid::{be_value, binary_to_uuid, to_uuid_error_text, Uuid, UUID_SUBTYPE};
use vstd::prelude::*;

verus! {

/// The BSON value by which the database names a document that it took.
#[derive(Debug)]
pub enum InsertedId {
    /// A binary value of some subtype.
    Binary { subtype: u8, bytes: Vec<u8> },
    /// Any other value, as its display output.
    Other { text: String },
}

/// Whether `result` holds the UUID that a BSON value stands for, or why it stands for none.
pub open spec fn inserted_id_outcome(bson: InsertedId, result: Result<Uuid, OrderError>) -> bool {
    match bson {
        InsertedId::Binary { subtype, bytes } => if subtype == UUID_SUBTYPE && bytes@.len() == 16 {
            result matches Ok(id) && id == be_value(bytes@)
        } else {
            result matches Err(OrderError::Reported { text }) && text@ == to_uuid_error_text(
                subtype,
                bytes@.len(),
            )
        },
        InsertedId::Other { text } => result matches Err(OrderError::IdNotBinary { bson: quoted })
            && quoted@ == text@,
    }
}

/// Extracts UUID from Bson.
///
/// Creating a order returns a UUID in a Bson document. This function helps to extract the UUID.
pub fn uuid_from_bson(bson: InsertedId) -> (result: Result<Uuid, OrderError>)
    ensures
        inserted_id_outcome(bson, result),
{
    match bson {
        InsertedId::Binary { subtype, bytes } => match binary_to_uuid(subtype, bytes) {
            Ok(id) => Ok(id),
            Err(text) => Err(OrderError::Reported { text }),
        },
        InsertedId::Other { text } => Err(OrderError::IdNotBinary { bson: text }),
    }
}

/// Whether `result` holds the UUID of the order that the database took, or why there is none.
pub open spec fn insertion_outcome(inserted: Result<InsertedId, ()>, result: Result<Uuid, OrderError>) -> bool {
    match inserted {
        Ok(inserted_id) => inserted_id_outcome(inserted_id, result),
        Err(()) => result matches Err(OrderError::AddingFailed),
    }
}

/// Obtains the UUID of an order that was inserted in MongoDB.
pub fn insert_order_in_mongodb(inserted: Result<InsertedId, ()>) -> (result: Result<Uuid, OrderError>)
    ensures
        insertion_outcome(inserted, result),
{
    match inserted {
        Ok(inserted_id) => uuid_from_bson(inserted_id),
        Err(()) => Err(OrderError::AddingFailed),
    }
}

/// An order that the database names by its own UUID is found under that UUID.
pub proof fn own_id_is_found(id: Uuid, bytes: Vec<u8>, result: Result<Uuid, OrderError>)
    requires
        bytes@ == crate::uuid::be_bytes(id as nat, 16),
        insertion_outcome(Ok(InsertedId::Binary { subtype: UUID_SUBTYPE, bytes }), result),
    ensures
        result == Ok::<Uuid, OrderError>(id),
{
    crate::uuid::uuid_bytes_round_trip(id);
}

/// The BSON value by which the database names an order is read as the UUID that its bytes spell, if it
/// is a binary value of the UUID subtype and of sixteen bytes, and only then. Other binary values are
/// refused in the words of `bson`, and other values are quoted as they are.
pub proof fn inserted_ids_are_read_as_they_are(bson: InsertedId, result: Result<Uuid, OrderError>)
    requires
        inserted_id_outcome(bson, result),
    ensures
        match bson {
            InsertedId::Binary { subtype, bytes } => {
                &&& result is Ok <==> subtype == 4 && bytes@.len() == 16
                &&& result matches Ok(id) ==> id == be_value(bytes@)
                &&& result matches Err(error) ==> (error matches OrderError::Reported { text } && text@
                    == to_uuid_error_text(subtype, bytes@.len()))
            },
            InsertedId::Other { text } => result matches Err(OrderError::IdNotBinary { bson: quoted })
                && quoted@ == text@,
        },
{
}

} // verus!
