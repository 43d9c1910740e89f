use vstd::prelude::*;
use crate::pass::{RadioPass, RadioPassInfo, RadioPasses};

verus! {

/// The fields of a response that decoding may report on.
#[derive(Clone, Copy, Debug, PartialEq, Eq, Structural)]
pub enum Field {
    Satname,
    StartUtc,
    EndUtc,
    MaxEl,
}

/// Why a response body could not be decoded.
#[derive(Clone, Copy, Debug, PartialEq, Eq, Structural)]
pub enum DecodeError {
    /// The body is not JSON, or a value has the wrong JSON type.
    InvalidJson,
    /// A required field is absent under both of its names.
    MissingField(Field),
    /// A field is present under both of its names.
    DuplicateField(Field),
}

/// The values a pass object holds under each of the two names of each field:
/// the snake form (`start_utc`) and the camel form (`startUTC`).
#[derive(Clone, Copy, Debug, PartialEq, Eq, Structural)]
pub struct RawPass {
    pub start_utc: Option<u64>,
    pub start_utc_camel: Option<u64>,
    pub end_utc: Option<u64>,
    pub end_utc_camel: Option<u64>,
    pub max_el_centideg: Option<i64>,
    pub max_el_centideg_camel: Option<i64>,
}

/// The value of a field given under either of its names.
pub open spec fn pick_spec<T>(snake: Option<T>, camel: Option<T>, f: Field) -> Result<T, DecodeError> {
    match (snake, camel) {
        (Some(_), Some(_)) => Err(DecodeError::DuplicateField(f)),
        (Some(v), None) => Ok(v),
        (None, Some(v)) => Ok(v),
        (None, None) => Err(DecodeError::MissingField(f)),
    }
}

/// The pass that a raw pass object stands for: the first field in the order
/// start, end, elevation that is missing or duplicated decides the error.
pub open spec fn pass_spec(raw: RawPass) -> Result<RadioPass, DecodeError> {
    match pick_spec(raw.start_utc, raw.start_utc_camel, Field::StartUtc) {
        Err(e) => Err(e),
        Ok(s) => match pick_spec(raw.end_utc, raw.end_utc_camel, Field::EndUtc) {
            Err(e) => Err(e),
            Ok(t) => match pick_spec(raw.max_el_centideg, raw.max_el_centideg_camel, Field::MaxEl) {
                Err(e) => Err(e),
                Ok(m) => Ok(RadioPass { start_utc: s, end_utc: t, max_el_centideg: m }),
            },
        },
    }
}

fn pick_u64(snake: Option<u64>, camel: Option<u64>, f: Field) -> (r: Result<u64, DecodeError>)
    ensures
        r == pick_spec(snake, camel, f),
{
    match (snake, camel) {
        (Some(_), Some(_)) => Err(DecodeError::DuplicateField(f)),
        (Some(v), None) => Ok(v),
        (None, Some(v)) => Ok(v),
        (None, None) => Err(DecodeError::MissingField(f)),
    }
}

fn pick_i64(snake: Option<i64>, camel: Option<i64>, f: Field) -> (r: Result<i64, DecodeError>)
    ensures
        r == pick_spec(snake, camel, f),
{
    match (snake, camel) {
        (Some(_), Some(_)) => Err(DecodeError::DuplicateField(f)),
        (Some(v), None) => Ok(v),
        (None, Some(v)) => Ok(v),
        (None, None) => Err(DecodeError::MissingField(f)),
    }
}

/// Maps a raw pass object onto the one canonical pass record.
pub fn decode_pass(raw: &RawPass) -> (r: Result<RadioPass, DecodeError>)
    ensures
        r == pass_spec(*raw),
{
    let s = match pick_u64(raw.start_utc, raw.start_utc_camel, Field::StartUtc) {
        Ok(v) => v,
        Err(e) => return Err(e),
    };
    let t = match pick_u64(raw.end_utc, raw.end_utc_camel, Field::EndUtc) {
        Ok(v) => v,
        Err(e) => return Err(e),
    };
    let m = match pick_i64(raw.max_el_centideg, raw.max_el_centideg_camel, Field::MaxEl) {
        Ok(v) => v,
        Err(e) => return Err(e),
    };
    Ok(RadioPass { start_utc: s, end_utc: t, max_el_centideg: m })
}

/// Whether every raw pass decodes.
pub open spec fn all_decode(raws: Seq<RawPass>) -> bool {
    forall|i: int| 0 <= i < raws.len() ==> (#[trigger] pass_spec(raws[i])).is_ok()
}

/// Whether `i` is the position of the first raw pass that fails to decode.
pub open spec fn first_failure(raws: Seq<RawPass>, i: int) -> bool {
    0 <= i < raws.len() && pass_spec(raws[i]).is_err() && forall|j: int|
        0 <= j < i ==> (#[trigger] pass_spec(raws[j])).is_ok()
}

/// Decodes a list of raw passes in order, stopping at the first that fails.
pub fn decode_passes(raws: &Vec<RawPass>) -> (r: Result<Vec<RadioPass>, DecodeError>)
    ensures
        r.is_ok() <==> all_decode(raws@),
        r matches Ok(v) ==> v@.len() == raws@.len() && forall|i: int|
            0 <= i < raws@.len() ==> pass_spec(raws@[i]) == Ok::<RadioPass, DecodeError>(
                #[trigger] v@[i],
            ),
        r matches Err(e) ==> exists|i: int|
            first_failure(raws@, i) && pass_spec(raws@[i]) == Err::<RadioPass, DecodeError>(e),
{
    let mut out: Vec<RadioPass> = Vec::new();
    let mut i: usize = 0;
    while i < raws.len()
        invariant
            i <= raws.len(),
            out@.len() == i,
            forall|j: int|
                0 <= j < i ==> pass_spec(raws@[j]) == Ok::<RadioPass, DecodeError>(
                    #[trigger] out@[j],
                ),
        decreases raws.len() - i,
    {
        match decode_pass(&raws[i]) {
            Ok(p) => out.push(p),
            Err(e) => {
                assert forall|j: int| 0 <= j < i implies (#[trigger] pass_spec(raws@[j])).is_ok() by {
                    assert(pass_spec(raws@[j]) == Ok::<RadioPass, DecodeError>(out@[j]));
                }
                assert(first_failure(raws@, i as int));
                return Err(e);
            },
        }
        i = i + 1;
    }
    assert(all_decode(raws@)) by {
        assert forall|j: int| 0 <= j < raws@.len() implies (#[trigger] pass_spec(raws@[j])).is_ok() by {
            assert(pass_spec(raws@[j]) == Ok::<RadioPass, DecodeError>(out@[j]));
        }
    }
    Ok(out)
}

/// The raw pass that gives each field under one of its two names, the snake
/// name where the flag is set and the camel name otherwise.
pub open spec fn raw_named(
    start: u64,
    end: u64,
    max_el: i64,
    snake_start: bool,
    snake_end: bool,
    snake_el: bool,
) -> RawPass {
    RawPass {
        start_utc: if snake_start { Some(start) } else { None },
        start_utc_camel: if snake_start { None } else { Some(start) },
        end_utc: if snake_end { Some(end) } else { None },
        end_utc_camel: if snake_end { None } else { Some(end) },
        max_el_centideg: if snake_el { Some(max_el) } else { None },
        max_el_centideg_camel: if snake_el { None } else { Some(max_el) },
    }
}

/// Alias equivalence: whichever of the two names each field is given under,
/// the same values decode to the same pass record.
pub proof fn alias_equivalence(
    start: u64,
    end: u64,
    max_el: i64,
    snake_start: bool,
    snake_end: bool,
    snake_el: bool,
)
    ensures
        pass_spec(raw_named(start, end, max_el, snake_start, snake_end, snake_el)) == pass_spec(
            raw_named(start, end, max_el, true, true, true),
        ),
        pass_spec(raw_named(start, end, max_el, snake_start, snake_end, snake_el)) == Ok::<
            RadioPass,
            DecodeError,
        >(RadioPass { start_utc: start, end_utc: end, max_el_centideg: max_el }),
{
}

/// The value a field has under whichever of its names it is given, the snake
/// name first.
pub open spec fn given<T>(snake: Option<T>, camel: Option<T>) -> Option<T> {
    match snake {
        Some(v) => Some(v),
        None => camel,
    }
}

/// The two fields hold the same value, and are given under both names in
/// both or in neither; which single name is used may differ.
pub open spec fn same_field<T>(xs: Option<T>, xc: Option<T>, ys: Option<T>, yc: Option<T>) -> bool {
    given(xs, xc) == given(ys, yc) && (xs is Some && xc is Some) == (ys is Some && yc is Some)
}

/// `y` is `x` with any of its keys renamed to the field's other name.
pub open spec fn renamed(x: RawPass, y: RawPass) -> bool {
    same_field(x.start_utc, x.start_utc_camel, y.start_utc, y.start_utc_camel) && same_field(
        x.end_utc,
        x.end_utc_camel,
        y.end_utc,
        y.end_utc_camel,
    ) && same_field(x.max_el_centideg, x.max_el_centideg_camel, y.max_el_centideg, y.max_el_centideg_camel)
}

/// Alias equivalence for whole responses: where two pass lists differ only in
/// which name each pass gives each field under, every pass decodes alike, so
/// both lists decode, or fail at the same pass with the same error.
pub proof fn response_alias_equivalence(a: Seq<RawPass>, b: Seq<RawPass>)
    requires
        a.len() == b.len(),
        forall|i: int| 0 <= i < a.len() ==> renamed(#[trigger] a[i], b[i]),
    ensures
        forall|i: int| 0 <= i < a.len() ==> #[trigger] pass_spec(a[i]) == pass_spec(b[i]),
        all_decode(a) == all_decode(b),
        forall|i: int| first_failure(a, i) == first_failure(b, i),
{
    assert forall|i: int| 0 <= i < a.len() implies #[trigger] pass_spec(a[i]) == pass_spec(b[i]) by {
        assert(renamed(a[i], b[i]));
    }
    assert(all_decode(a) == all_decode(b)) by {
        if all_decode(a) {
            assert forall|j: int| 0 <= j < b.len() implies (#[trigger] pass_spec(b[j])).is_ok() by {
                assert(pass_spec(a[j]) == pass_spec(b[j]));
            }
        }
        if all_decode(b) {
            assert forall|j: int| 0 <= j < a.len() implies (#[trigger] pass_spec(a[j])).is_ok() by {
                assert(pass_spec(a[j]) == pass_spec(b[j]));
            }
        }
    }
    assert forall|i: int| first_failure(a, i) == first_failure(b, i) by {
        if 0 <= i < a.len() {
            assert(pass_spec(a[i]) == pass_spec(b[i]));
            assert forall|j: int| 0 <= j < i implies pass_spec(a[j]) == pass_spec(b[j]) by {
                assert(pass_spec(a[j]) == pass_spec(b[j]));
            }
        }
    }
}

/// Decodes one satellite's response from the satellite name and the pass list
/// that its body holds, each `None` where the body lacks it. The name is
/// required; an absent pass list stands for no passes.
pub fn decode_radiopasses(satname: Option<String>, passes: Option<Vec<RawPass>>) -> (r: Result<
    RadioPasses,
    DecodeError,
>)
    ensures
        satname is None ==> r == Err::<RadioPasses, DecodeError>(
            DecodeError::MissingField(Field::Satname),
        ),
        satname is Some && passes is None ==> (r matches Ok(v) && v.info.satname@
            == satname->0@ && v.passes@.len() == 0),
        satname is Some && passes is Some ==> (r.is_ok() <==> all_decode(passes->0@)),
        passes is Some ==> (r matches Ok(v) ==> v.info.satname@ == satname->0@ && v.passes@.len()
            == passes->0@.len() && forall|i: int|
            0 <= i < v.passes@.len() ==> pass_spec(passes->0@[i]) == Ok::<RadioPass, DecodeError>(
                #[trigger] v.passes@[i],
            )),
        satname is Some && passes is Some ==> (r matches Err(e) ==> exists|i: int|
            first_failure(passes->0@, i) && pass_spec(passes->0@[i]) == Err::<RadioPass, DecodeError>(e)),
{
    let name = match satname {
        Some(n) => n,
        None => return Err(DecodeError::MissingField(Field::Satname)),
    };
    let list = match passes {
        None => Vec::new(),
        Some(raws) => match decode_passes(&raws) {
            Ok(v) => v,
            Err(e) => return Err(e),
        },
    };
    Ok(RadioPasses { info: RadioPassInfo { satname: name }, passes: list })
}

} // verus!
