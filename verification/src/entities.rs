use vstd::prelude::*;
use crate::error::Error;
use crate::ids::{digits_value, extract_block_num, height_prefix, valid_composite_id};

verus! {

/// A block header record.  Composite identifiers encode the height as their
/// numeric prefix; `validator` is the one optional field.
#[derive(Debug)]
pub struct Block {
    pub id: String,
    pub height: i32,
    pub hash: String,
    pub parent_hash: String,
    pub state_root: String,
    pub extrinsics_root: String,
    pub timestamp: String,
    pub spec_id: String,
    pub validator: Option<String>,
}

/// An extrinsic of one block.  JSON-valued fields (`signature`, `error`)
/// arrive flattened to their textual serialization; the engine treats them
/// as opaque text.
#[derive(Debug)]
pub struct Extrinsic {
    pub id: String,
    pub block_id: String,
    pub index_in_block: i32,
    pub version: i32,
    pub signature: Option<String>,
    pub call_id: String,
    pub fee: Option<i64>,
    pub tip: Option<i64>,
    pub success: bool,
    pub error: Option<String>,
    pub hash: String,
    pub pos: i32,
}

/// An event of one block, optionally attributable to an extrinsic and a
/// call.  `args` arrives flattened to text.
#[derive(Debug)]
pub struct Event {
    pub id: String,
    pub block_id: String,
    pub index_in_block: i32,
    pub phase: String,
    pub extrinsic_id: Option<String>,
    pub call_id: Option<String>,
    pub name: String,
    pub args: Option<String>,
    pub pos: i32,
}

/// A call invoked by an extrinsic; `parent_id` links the call tree.  The
/// JSON-valued fields (`origin`, `error`, `args`) arrive flattened to text.
#[derive(Debug)]
pub struct Call {
    pub id: String,
    pub parent_id: Option<String>,
    pub block_id: String,
    pub extrinsic_id: String,
    pub origin: Option<String>,
    pub success: bool,
    pub error: Option<String>,
    pub name: String,
    pub args: Option<String>,
    pub pos: i32,
}

/// Chain metadata carried by some blocks, destined for the keyed sidecar
/// store.
#[derive(Debug)]
pub struct Metadata {
    pub id: String,
    pub spec_name: String,
    pub spec_version: Option<i32>,
    pub block_height: i32,
    pub block_hash: String,
    pub hex: String,
}

/// One decoded unit of input: a block header with its nested records and
/// optional metadata.
#[derive(Debug)]
pub struct BlockData {
    pub header: Block,
    pub extrinsics: Vec<Extrinsic>,
    pub events: Vec<Event>,
    pub calls: Vec<Call>,
    pub metadata: Option<Metadata>,
}

impl Block {
    /// The block height used for range tagging, as a 64-bit number.
    pub fn block_num(&self) -> (n: i64)
        ensures
            n as int == self.height as int,
    {
        self.height as i64
    }
}

impl Extrinsic {
    /// The block height parsed from the identifier's numeric prefix.
    pub fn block_num(&self) -> (r: Result<i64, Error>)
        ensures
            valid_composite_id(self.block_id@) ==> (r matches Ok(n) && n as int == digits_value(
                height_prefix(self.block_id@),
            )),
            !valid_composite_id(self.block_id@) ==> (r matches Err(
                Error::MalformedIdentifier(m),
            ) && m@ == self.block_id@),
    {
        match extract_block_num(&self.block_id) {
            Result::Ok(v) => Result::Ok(v as i64),
            Result::Err(e) => Result::Err(e),
        }
    }
}

impl Event {
    /// The block height parsed from the identifier's numeric prefix.
    pub fn block_num(&self) -> (r: Result<i64, Error>)
        ensures
            valid_composite_id(self.block_id@) ==> (r matches Ok(n) && n as int == digits_value(
                height_prefix(self.block_id@),
            )),
            !valid_composite_id(self.block_id@) ==> (r matches Err(
                Error::MalformedIdentifier(m),
            ) && m@ == self.block_id@),
    {
        match extract_block_num(&self.block_id) {
            Result::Ok(v) => Result::Ok(v as i64),
            Result::Err(e) => Result::Err(e),
        }
    }
}

impl Call {
    /// The block height parsed from the identifier's numeric prefix.
    pub fn block_num(&self) -> (r: Result<i64, Error>)
        ensures
            valid_composite_id(self.block_id@) ==> (r matches Ok(n) && n as int == digits_value(
                height_prefix(self.block_id@),
            )),
            !valid_composite_id(self.block_id@) ==> (r matches Err(
                Error::MalformedIdentifier(m),
            ) && m@ == self.block_id@),
    {
        match extract_block_num(&self.block_id) {
            Result::Ok(v) => Result::Ok(v as i64),
            Result::Err(e) => Result::Err(e),
        }
    }
}

} // verus!
