use vstd::prelude::*;

pub mod color;
pub mod convolve;
pub mod dispatch;
pub mod host;
pub mod laws;
pub mod pixel;
pub mod resample;

verus! {

/// The two fatal conditions of an invocation, and the rejection of a
/// posterization level count that would divide by zero.
#[derive(Clone, Copy, PartialEq, Eq, Structural, Debug)]
pub enum FilterError {
    /// The input bytes could not be decoded as a supported image container.
    Decode,
    /// The processed buffer could not be re-encoded.
    Encode,
    /// A filter parameter outside its meaningful range.
    InvalidParameter,
}

/// One whole invocation: decode the input bytes into a pixel buffer, apply
/// the filter the name token resolves to (an unrecognized token passes the
/// image through unchanged), and re-encode the result as 8-bit RGBA PNG.
/// Undecodable input is the `Decode` error and a buffer the encoder rejects
/// is the `Encode` error; no partial output is ever produced.
pub fn apply_filter(img_data: &[u8], filter_type: &str) -> (r: Result<Vec<u8>, FilterError>)
    ensures
        r == Err::<Vec<u8>, FilterError>(FilterError::Decode) <==> host::decode_of(img_data@)
            is None,
        host::decode_of(img_data@) matches Some(d) ==> {
            let f = pixel::quads(
                dispatch::spec_run_filter(
                    d.0,
                    d.1,
                    pixel::pixels_of_quads(d.2),
                    dispatch::spec_parse_filter(filter_type@),
                ),
            );
            &&& (host::png_encode_of(d.0, d.1, f) matches Some(bytes) ==> r matches Ok(v) && v@
                == bytes)
            &&& (host::png_encode_of(d.0, d.1, f) is None ==> r == Err::<Vec<u8>, FilterError>(
                FilterError::Encode,
            ))
        },
{
    let buf = match host::decode_rgba(img_data) {
        Ok(b) => b,
        Err(_) => {
            return Err(FilterError::Decode);
        },
    };
    proof {
        pixel::lemma_quads_roundtrip(buf.data@);
    }
    let kind = dispatch::parse_filter(filter_type);
    let processed = dispatch::run_filter(buf, kind);
    match host::encode_png(&processed) {
        Ok(bytes) => Ok(bytes),
        Err(_) => Err(FilterError::Encode),
    }
}

} // verus!
