//! Sound outputs, decoded map-style from a record's key/value pairs.

use vstd::prelude::*;

use crate::error::{Error, ErrorModel, ProtoErrorModel};
use crate::record::{req_text, req_u32, spec_lookup, spec_req_text, spec_req_u32};
use crate::text::{dec_val, is_u32_text, str_eq};

verus! {

/// Mathematical image of an [`Output`].
pub ghost struct OutputModel {
    pub id: u32,
    pub name: Seq<char>,
    pub enabled: bool,
}

/// One sound output of the server.
#[derive(Debug, Clone, PartialEq, Eq)]
pub struct Output {
    /// output id
    pub id: u32,
    /// output name
    pub name: String,
    /// enabled state
    pub enabled: bool,
}

impl View for Output {
    type V = OutputModel;

    open spec fn view(&self) -> OutputModel {
        OutputModel { id: self.id, name: self.name@, enabled: self.enabled }
    }
}

/// The decoded form of one output record: `outputid` (an unsigned
/// integer), `outputname`, and `outputenabled` (the flag text `1`), each
/// pulled from the map in that order. A missing key is a missing-field
/// error naming it; a malformed id is a bad-value error naming the key
/// and the raw value.
pub open spec fn spec_output_from_map(pairs: Seq<(Seq<char>, Seq<char>)>) -> Result<
    OutputModel,
    ErrorModel,
> {
    match spec_req_u32(pairs, "outputid"@) {
        Err(e) => Err(e),
        Ok(id) => match spec_req_text(pairs, "outputname"@) {
            Err(e) => Err(e),
            Ok(name) => match spec_req_text(pairs, "outputenabled"@) {
                Err(e) => Err(e),
                Ok(en) => Ok(OutputModel { id, name, enabled: en == "1"@ }),
            },
        },
    }
}

impl Output {
    /// Decodes one output record from its pairs, read as a key-to-value
    /// map.
    pub fn from_map(pairs: &Vec<(String, String)>) -> (r: Result<Output, Error>)
        ensures
            match r {
                Ok(out) => spec_output_from_map(pairs.deep_view()) == Ok::<
                    OutputModel,
                    ErrorModel,
                >(out@),
                Err(e) => spec_output_from_map(pairs.deep_view()) == Err::<
                    OutputModel,
                    ErrorModel,
                >(e@),
            },
    {
        let id = match req_u32(pairs, "outputid") {
            Ok(v) => v,
            Err(e) => return Err(e),
        };
        let name = match req_text(pairs, "outputname") {
            Ok(v) => v,
            Err(e) => return Err(e),
        };
        let enabled = match req_text(pairs, "outputenabled") {
            Ok(v) => str_eq(v.as_str(), "1"),
            Err(e) => return Err(e),
        };
        Ok(Output { id, name, enabled })
    }
}

/// For every well-formed record map — the three output keys present, the
/// id well-formed — the map-style decoder returns exactly the decoded
/// field values.
pub proof fn lemma_output_decodes_fields(
    pairs: Seq<(Seq<char>, Seq<char>)>,
    id_txt: Seq<char>,
    name: Seq<char>,
    en: Seq<char>,
)
    requires
        spec_lookup(pairs, "outputid"@) == Some(id_txt),
        is_u32_text(id_txt),
        spec_lookup(pairs, "outputname"@) == Some(name),
        spec_lookup(pairs, "outputenabled"@) == Some(en),
    ensures
        spec_output_from_map(pairs) == Ok::<OutputModel, ErrorModel>(
            OutputModel { id: dec_val(id_txt) as u32, name: name, enabled: en == "1"@ },
        ),
{
}

/// A required key's absence is a missing-field error naming exactly that
/// key, the fields being demanded in order: id, name, enabled state.
pub proof fn lemma_output_missing_field_named(pairs: Seq<(Seq<char>, Seq<char>)>)
    ensures
        spec_lookup(pairs, "outputid"@) is None ==> spec_output_from_map(pairs) == Err::<
            OutputModel,
            ErrorModel,
        >(ErrorModel::Proto(ProtoErrorModel::NoField("outputid"@))),
        (spec_lookup(pairs, "outputid"@) matches Some(id_txt) && is_u32_text(id_txt)
            && spec_lookup(pairs, "outputname"@) is None) ==> spec_output_from_map(pairs) == Err::<
            OutputModel,
            ErrorModel,
        >(ErrorModel::Proto(ProtoErrorModel::NoField("outputname"@))),
        (spec_lookup(pairs, "outputid"@) matches Some(id_txt) && is_u32_text(id_txt)
            && spec_lookup(pairs, "outputname"@) is Some && spec_lookup(pairs, "outputenabled"@)
            is None) ==> spec_output_from_map(pairs) == Err::<OutputModel, ErrorModel>(
            ErrorModel::Proto(ProtoErrorModel::NoField("outputenabled"@)),
        ),
{
}

} // verus!
