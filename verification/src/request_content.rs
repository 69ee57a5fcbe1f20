//! The content of the body types a request reads as a whole: text and bytes.

use vstd::prelude::*;
use crate::api_doc::{content_of, reference_content, SingleMediaType, MultiRequestMediaType};
use crate::media_type::MediaType;
use crate::openapi_doc::MediaTypeDoc;
use crate::ordered_map::OrderedMap;
use crate::schema::{SchemaRegistry, ToSchema};

verus! {

impl MultiRequestMediaType for String {
    /// Text, whose schema is that of `String`.
    fn content(reg: &mut SchemaRegistry) -> (c: OrderedMap<MediaTypeDoc>)
        ensures
            reference_content(c.entries(), <String as MediaType>::media_type_spec(), <String as ToSchema>::key_spec()),
    {
        content_of::<String>(<String as SingleMediaType>::media_type_doc(reg))
    }
}

impl MultiRequestMediaType for Vec<u8> {
    /// Bytes, whose schema is that of `Vec<u8>`.
    fn content(reg: &mut SchemaRegistry) -> (c: OrderedMap<MediaTypeDoc>)
        ensures
            reference_content(c.entries(), <Vec<u8> as MediaType>::media_type_spec(), <Vec<u8> as ToSchema>::key_spec()),
    {
        content_of::<Vec<u8>>(<Vec<u8> as SingleMediaType>::media_type_doc(reg))
    }
}

} // verus!
