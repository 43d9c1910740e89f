use vstd::prelude::*;
use crate::decode::DecodeError;
use crate::pass::{RadioPassInfo, RadioPasses};

verus! {

/// The decimal digits, indexed by their value.
pub open spec fn digit_chars() -> Seq<char> {
    seq!['0', '1', '2', '3', '4', '5', '6', '7', '8', '9']
}

/// The decimal numeral of `n`, without leading zeros.
pub open spec fn decimal(n: nat) -> Seq<char>
    decreases n,
{
    if n < 10 {
        seq![digit_chars()[n as int]]
    } else {
        decimal(n / 10) + seq![digit_chars()[(n % 10) as int]]
    }
}

/// The request target for one satellite's radio passes: satellite id,
/// observer latitude and longitude, altitude zero, days to search and
/// minimum elevation, then the credential.
pub open spec fn request_url(
    id: u64,
    lat: Seq<char>,
    long: Seq<char>,
    min_elevation: u64,
    days: u64,
    api_key: Seq<char>,
) -> Seq<char> {
    "https://api.n2yo.com/rest/v1/satellite/radiopasses/"@ + decimal(id as nat) + "/"@ + lat
        + "/"@ + long + "/0/"@ + decimal(days as nat) + "/"@ + decimal(min_elevation as nat)
        + "/&apiKey="@ + api_key
}

fn digit_str(d: u64) -> (r: &'static str)
    requires
        d < 10,
    ensures
        r@ == seq![digit_chars()[d as int]],
{
    proof {
        reveal_strlit("0");
        reveal_strlit("1");
        reveal_strlit("2");
        reveal_strlit("3");
        reveal_strlit("4");
        reveal_strlit("5");
        reveal_strlit("6");
        reveal_strlit("7");
        reveal_strlit("8");
        reveal_strlit("9");
    }
    if d == 0 {
        "0"
    } else if d == 1 {
        "1"
    } else if d == 2 {
        "2"
    } else if d == 3 {
        "3"
    } else if d == 4 {
        "4"
    } else if d == 5 {
        "5"
    } else if d == 6 {
        "6"
    } else if d == 7 {
        "7"
    } else if d == 8 {
        "8"
    } else {
        "9"
    }
}

/// Appends the decimal numeral of `n` to `out`.
pub fn push_decimal(out: &mut String, n: u64)
    ensures
        final(out)@ == old(out)@ + decimal(n as nat),
    decreases n,
{
    if n >= 10 {
        push_decimal(out, n / 10);
    }
    out.append(digit_str(n % 10));
    assert(final(out)@ =~= old(out)@ + decimal(n as nat));
}

/// Why a number typed by the user was refused.
#[derive(Clone, Copy, Debug, PartialEq, Eq, Structural)]
pub enum BuildError {
    /// Past an optional leading `+`, the text is empty or holds a character
    /// other than a decimal digit.
    NotANumber,
    /// The numeral is larger than the largest value a `u64` can hold.
    TooLarge,
}

pub open spec fn is_digit(c: char) -> bool {
    '0' <= c && c <= '9'
}

pub open spec fn all_digits(s: Seq<char>) -> bool {
    forall|i: int| 0 <= i < s.len() ==> is_digit(#[trigger] s[i])
}

pub open spec fn digit_value(c: char) -> nat {
    ((c as u32) - ('0' as u32)) as nat
}

/// The number that a string of decimal digits denotes.
pub open spec fn numeral_value(s: Seq<char>) -> nat
    decreases s.len(),
{
    if s.len() == 0 {
        0
    } else {
        numeral_value(s.drop_last()) * 10 + digit_value(s.last())
    }
}

/// The text with one leading `+`, if it has one, taken off.
pub open spec fn unsigned_digits(s: Seq<char>) -> Seq<char> {
    if s.len() > 0 && s[0] == '+' {
        s.drop_first()
    } else {
        s
    }
}

proof fn lemma_numeral_grows(s: Seq<char>, i: int, j: int)
    requires
        0 <= i <= j <= s.len(),
    ensures
        numeral_value(s.subrange(0, i)) <= numeral_value(s.subrange(0, j)),
    decreases j - i,
{
    if i < j {
        lemma_numeral_grows(s, i, j - 1);
        assert(s.subrange(0, j).drop_last() =~= s.subrange(0, j - 1));
    }
}

/// Reads an unsigned decimal number: an optional `+`, then one or more digits.
pub fn parse_unsigned(s: &str) -> (r: Result<u64, BuildError>)
    ensures
        r == Err::<u64, BuildError>(BuildError::NotANumber) <==> (unsigned_digits(s@).len() == 0
            || !all_digits(unsigned_digits(s@))),
        r == Err::<u64, BuildError>(BuildError::TooLarge) <==> (unsigned_digits(s@).len() > 0
            && all_digits(unsigned_digits(s@)) && numeral_value(unsigned_digits(s@)) > u64::MAX),
        r matches Ok(v) ==> v == numeral_value(unsigned_digits(s@)),
{
    let ghost d = unsigned_digits(s@);
    let n = s.unicode_len();
    let start: usize = if n > 0 && s.get_char(0) == '+' { 1 } else { 0 };
    assert(d =~= s@.subrange(start as int, n as int));
    if n == start {
        return Err(BuildError::NotANumber);
    }
    let mut i: usize = start;
    while i < n
        invariant
            n == s@.len(),
            start <= i <= n,
            d == s@.subrange(start as int, n as int),
            d == unsigned_digits(s@),
            forall|j: int| 0 <= j < i - start ==> is_digit(#[trigger] d[j]),
        decreases n - i,
    {
        let c = s.get_char(i);
        assert(c == d[i - start]);
        if c < '0' || c > '9' {
            return Err(BuildError::NotANumber);
        }
        i = i + 1;
    }
    let mut acc: u64 = 0;
    let mut i: usize = start;
    while i < n
        invariant
            n == s@.len(),
            start <= i <= n,
            d == s@.subrange(start as int, n as int),
            d == unsigned_digits(s@),
            all_digits(d),
            acc == numeral_value(d.subrange(0, i - start)),
        decreases n - i,
    {
        let c = s.get_char(i);
        let k: usize = i - start;
        assert(c == d[k as int]);
        assert(is_digit(d[k as int]));
        let dv: u64 = ((c as u32) - ('0' as u32)) as u64;
        assert(d.subrange(0, k + 1).drop_last() =~= d.subrange(0, k as int));
        if acc > (u64::MAX - dv) / 10 {
            assert(acc * 10 + dv > u64::MAX) by (nonlinear_arith)
                requires
                    acc > (u64::MAX - dv) / 10,
                    dv <= 9,
            ;
            proof {
                lemma_numeral_grows(d, k + 1, d.len() as int);
                assert(d.subrange(0, d.len() as int) =~= d);
            }
            return Err(BuildError::TooLarge);
        }
        assert(acc * 10 + dv <= u64::MAX) by (nonlinear_arith)
            requires
                acc <= (u64::MAX - dv) / 10,
                dv <= 9,
        ;
        acc = acc * 10 + dv;
        i = i + 1;
    }
    assert(d.subrange(0, n - start) =~= d);
    Ok(acc)
}

/// Reads a satellite id typed by the user.
pub fn parse_satellite_id(s: &str) -> (r: Result<u64, BuildError>)
    ensures
        r == Err::<u64, BuildError>(BuildError::NotANumber) <==> (unsigned_digits(s@).len() == 0
            || !all_digits(unsigned_digits(s@))),
        r == Err::<u64, BuildError>(BuildError::TooLarge) <==> (unsigned_digits(s@).len() > 0
            && all_digits(unsigned_digits(s@)) && numeral_value(unsigned_digits(s@)) > u64::MAX),
        r matches Ok(v) ==> v == numeral_value(unsigned_digits(s@)),
{
    parse_unsigned(s)
}

/// One queued request: the satellite it is for and the full request target.
#[derive(Clone, Debug)]
pub struct RequestDescriptor {
    pub satellite_id: u64,
    pub url: String,
}

/// Why one satellite's request produced no decoded response.
#[derive(Clone, Copy, Debug, PartialEq, Eq, Structural)]
pub enum FetchError {
    /// The service could not be reached, or the call timed out.
    Network,
    /// The service answered with a status other than success.
    Status(u16),
    /// The body did not decode.
    Decode(DecodeError),
}

/// One slot of a dispatched batch: the satellite asked for, its passes, and
/// why its request failed, if it did. A failed slot holds an empty result
/// named by the satellite id, so that the other slots still show.
#[derive(Clone, Debug)]
pub struct BatchEntry {
    pub satellite_id: u64,
    pub result: RadioPasses,
    pub error: Option<FetchError>,
}

/// What slot `i` of a batch holds, given the request queued at `i` and its outcome.
pub open spec fn entry_for(e: BatchEntry, id: u64, outcome: Result<RadioPasses, FetchError>) -> bool {
    e.satellite_id == id && match outcome {
        Ok(v) => e.result == v && e.error is None,
        Err(f) => is_placeholder(e.result, id) && e.error == Some(f),
    }
}

/// A batch of pass requests against the tracking service, queued until dispatched.
pub struct N2YOApi {
    pub api_key: String,
    pub batched_reqs: Vec<RequestDescriptor>,
}

/// The result that stands in a batch for a satellite whose request failed:
/// named by its id, with no passes.
pub open spec fn is_placeholder(r: RadioPasses, id: u64) -> bool {
    r.info.satname@ == decimal(id as nat) && r.passes@.len() == 0
}

impl N2YOApi {
    /// A client with the given credential and nothing queued.
    pub fn new(api_key: String) -> (r: N2YOApi)
        ensures
            r.api_key == api_key,
            r.batched_reqs@.len() == 0,
    {
        N2YOApi { api_key, batched_reqs: Vec::new() }
    }

    /// Queues the request for one satellite's radio passes; nothing is sent yet.
    pub fn get_radiopasses(
        &mut self,
        id: u64,
        lat: &str,
        long: &str,
        min_elevation: u64,
        days: u64,
    )
        ensures
            final(self).api_key == old(self).api_key,
            final(self).batched_reqs@.len() == old(self).batched_reqs@.len() + 1,
            forall|i: int|
                0 <= i < old(self).batched_reqs@.len() ==> #[trigger] final(self).batched_reqs@[i]
                    == old(self).batched_reqs@[i],
            final(self).batched_reqs@.last().satellite_id == id,
            final(self).batched_reqs@.last().url@ == request_url(
                id,
                lat@,
                long@,
                min_elevation,
                days,
                old(self).api_key@,
            ),
    {
        let mut url = "https://api.n2yo.com/rest/v1/satellite/radiopasses/".to_owned();
        push_decimal(&mut url, id);
        url.append("/");
        url.append(lat);
        url.append("/");
        url.append(long);
        url.append("/0/");
        push_decimal(&mut url, days);
        url.append("/");
        push_decimal(&mut url, min_elevation);
        url.append("/&apiKey=");
        url.append(self.api_key.as_str());
        assert(url@ =~= request_url(id, lat@, long@, min_elevation, days, self.api_key@));
        self.batched_reqs.push(RequestDescriptor { satellite_id: id, url });
    }

    /// Completes a dispatch: `outcomes[i]` is what the request queued at
    /// position `i` gave. Returns one entry per queued request, in queue
    /// order, each with its satellite id; a failed request keeps its cause
    /// beside an empty result, and the others are unaffected. The queue is
    /// empty afterwards.
    pub fn dispatch_reqs(&mut self, outcomes: Vec<Result<RadioPasses, FetchError>>) -> (r: Vec<
        BatchEntry,
    >)
        requires
            outcomes@.len() == old(self).batched_reqs@.len(),
        ensures
            final(self).api_key == old(self).api_key,
            final(self).batched_reqs@.len() == 0,
            r@.len() == old(self).batched_reqs@.len(),
            forall|i: int|
                0 <= i < r@.len() ==> entry_for(
                    #[trigger] r@[i],
                    old(self).batched_reqs@[i].satellite_id,
                    outcomes@[i],
                ),
    {
        let ghost orig = outcomes@;
        let mut rest = outcomes;
        let mut out: Vec<BatchEntry> = Vec::new();
        let n = self.batched_reqs.len();
        let mut i: usize = 0;
        while i < n
            invariant
                n == self.batched_reqs@.len(),
                self.batched_reqs@ == old(self).batched_reqs@,
                self.api_key == old(self).api_key,
                orig.len() == n,
                i <= n,
                rest@ == orig.subrange(i as int, n as int),
                out@.len() == i,
                forall|j: int|
                    0 <= j < i ==> entry_for(
                        #[trigger] out@[j],
                        self.batched_reqs@[j].satellite_id,
                        orig[j],
                    ),
            decreases n - i,
        {
            let o = rest.remove(0);
            assert(o == orig[i as int]);
            let id = self.batched_reqs[i].satellite_id;
            match o {
                Ok(v) => out.push(BatchEntry { satellite_id: id, result: v, error: None }),
                Err(e) => {
                    let mut name = String::new();
                    push_decimal(&mut name, id);
                    let empty = RadioPasses { info: RadioPassInfo { satname: name }, passes: Vec::new() };
                    out.push(BatchEntry { satellite_id: id, result: empty, error: Some(e) });
                },
            }
            assert(rest@ =~= orig.subrange(i + 1, n as int));
            i = i + 1;
        }
        self.batched_reqs = Vec::new();
        out
    }
}

} // verus!
