use vstd::prelude::*;
use vstd::string::*;
use crate::errors::AppError;
use crate::inference::BBoxRecord;
use crate::inference::DetectionResult;
use crate::model::CONF_SCALE;
use crate::numfmt::dec_int;
use crate::numfmt::dec_nat;
use crate::numfmt::digit_char;
use crate::numfmt::digit_string;
use crate::numfmt::digit_val;
use crate::numfmt::i64_to_string;
use crate::numfmt::is_digit;
use crate::numfmt::lemma_dec_nat;
use crate::numfmt::lemma_seq_val_extend;
use crate::numfmt::seq_val;
use crate::numfmt::u64_to_string;

verus! {

// ------------------------------------------------------------------
// The wire format, as character sequences.
//
// A health body is the fixed object {"status":"ok"}.
// A success body is
//   {"success":true,"num_faces":N,"detections":[R,...,R]}
// with N the record count and each R of the form
//   {"bbox":[X1,Y1,X2,Y2],"confidence":C,"class_id":K}
// where the coordinates and the category are decimal integers and the
// confidence is a fixed-point fraction with three decimal places.
// A failure body is
//   {"success":false,"error":"MESSAGE"}
// with the message embedded verbatim; the taxonomy's messages hold no
// character that JSON requires escaped.
// ------------------------------------------------------------------

/// The fixed health body.
pub open spec fn health_chars() -> Seq<char> {
    "{\"status\":\"ok\"}"@
}

/// The confidence notation: one leading digit, a point, three decimals.
pub open spec fn conf_chars(c: nat) -> Seq<char> {
    seq![
        digit_char((c / 1000) as int),
        '.',
        digit_char(((c / 100) % 10) as int),
        digit_char(((c / 10) % 10) as int),
        digit_char((c % 10) as int),
    ]
}

/// The notation of one detection record.
pub open spec fn record_chars(rec: BBoxRecord) -> Seq<char> {
    "{\"bbox\":["@ + dec_int(rec.x1 as int) + seq![','] + dec_int(rec.y1 as int) + seq![',']
        + dec_int(rec.x2 as int) + seq![','] + dec_int(rec.y2 as int) + "],\"confidence\":"@
        + conf_chars(rec.confidence as nat) + ",\"class_id\":"@ + dec_int(rec.class_id as int)
        + seq!['}']
}

/// The comma-separated notation of a record sequence.
pub open spec fn records_chars(recs: Seq<BBoxRecord>) -> Seq<char>
    decreases recs.len(),
{
    if recs.len() == 0 {
        Seq::empty()
    } else if recs.len() == 1 {
        record_chars(recs[0])
    } else {
        record_chars(recs[0]) + seq![','] + records_chars(recs.drop_first())
    }
}

/// The success body of a record sequence.
pub open spec fn success_chars(recs: Seq<BBoxRecord>) -> Seq<char> {
    "{\"success\":true,\"num_faces\":"@ + dec_nat(recs.len()) + ",\"detections\":["@
        + records_chars(recs) + "]}"@
}

/// The failure body of an error message.
pub open spec fn failure_chars(msg: Seq<char>) -> Seq<char> {
    "{\"success\":false,\"error\":\""@ + msg + "\"}"@
}

// ------------------------------------------------------------------
// The serializer.
// ------------------------------------------------------------------

/// The confidence notation of a fixed-point confidence, as a string.
fn conf_to_string(c: u32) -> (r: String)
    requires
        c <= CONF_SCALE,
    ensures
        r@ == conf_chars(c as nat),
{
    let lead = digit_string((c / 1000) as u64);
    let d1 = digit_string(((c / 100) % 10) as u64);
    let d2 = digit_string(((c / 10) % 10) as u64);
    let d3 = digit_string((c % 10) as u64);
    proof {
        reveal_strlit(".");
    }
    let r = lead.concat(".").concat(d1.as_str()).concat(d2.as_str()).concat(d3.as_str());
    proof {
        assert("."@ =~= seq!['.']);
        assert(r@ =~= conf_chars(c as nat));
    }
    r
}

/// The notation of one detection record, as a string.
pub fn record_string(rec: &BBoxRecord) -> (r: String)
    requires
        rec.confidence <= CONF_SCALE,
    ensures
        r@ == record_chars(*rec),
{
    proof {
        reveal_strlit(",");
        reveal_strlit("}");
    }
    let r = String::from_str("{\"bbox\":[")
        .concat(i64_to_string(rec.x1).as_str())
        .concat(",")
        .concat(i64_to_string(rec.y1).as_str())
        .concat(",")
        .concat(i64_to_string(rec.x2).as_str())
        .concat(",")
        .concat(i64_to_string(rec.y2).as_str())
        .concat("],\"confidence\":")
        .concat(conf_to_string(rec.confidence).as_str())
        .concat(",\"class_id\":")
        .concat(i64_to_string(rec.class_id as i64).as_str())
        .concat("}");
    proof {
        assert(","@ =~= seq![',']);
        assert("}"@ =~= seq!['}']);
        assert(r@ =~= record_chars(*rec));
    }
    r
}

/// Appending one record extends a record sequence's notation by a separator,
/// except at the front.
proof fn lemma_records_chars_push(recs: Seq<BBoxRecord>, rec: BBoxRecord)
    ensures
        recs.len() == 0 ==> records_chars(recs.push(rec)) == record_chars(rec),
        recs.len() > 0 ==> records_chars(recs.push(rec)) == records_chars(recs) + seq![',']
            + record_chars(rec),
    decreases recs.len(),
{
    let pushed = recs.push(rec);
    if recs.len() == 0 {
        assert(pushed.len() == 1);
        assert(pushed[0] == rec);
    } else if recs.len() == 1 {
        assert(pushed.len() == 2);
        assert(pushed[0] == recs[0]);
        assert(pushed.drop_first() =~= recs.drop_first().push(rec));
        assert(recs.drop_first().len() == 0);
        assert(records_chars(pushed.drop_first()) == record_chars(rec));
        assert(records_chars(recs) == record_chars(recs[0]));
    } else {
        lemma_records_chars_push(recs.drop_first(), rec);
        assert(pushed.len() >= 2);
        assert(pushed[0] == recs[0]);
        assert(pushed.drop_first() =~= recs.drop_first().push(rec));
        assert(records_chars(pushed) == record_chars(recs[0]) + seq![','] + records_chars(
            recs.drop_first().push(rec),
        ));
        assert(records_chars(recs.drop_first().push(rec)) == records_chars(recs.drop_first())
            + seq![','] + record_chars(rec));
        assert(record_chars(recs[0]) + seq![','] + (records_chars(recs.drop_first()) + seq![',']
            + record_chars(rec)) =~= (record_chars(recs[0]) + seq![','] + records_chars(
            recs.drop_first(),
        )) + seq![','] + record_chars(rec));
    }
}

/// The success body of a detection result, as a string.
pub fn success_body(result: &DetectionResult) -> (r: String)
    requires
        result.wf(),
        forall|i: int| 0 <= i < result.detections@.len()
            ==> (#[trigger] result.detections@[i]).confidence <= CONF_SCALE,
    ensures
        r@ == success_chars(result.detections@),
{
    proof {
        reveal_strlit(",");
    }
    let mut body = String::from_str("{\"success\":true,\"num_faces\":")
        .concat(u64_to_string(result.num_faces() as u64).as_str())
        .concat(",\"detections\":[");
    let ghost prefix = "{\"success\":true,\"num_faces\":"@ + dec_nat(result.detections@.len())
        + ",\"detections\":["@;
    let n = result.detections.len();
    let mut i: usize = 0;
    while i < n
        invariant
            i <= n,
            n == result.detections@.len(),
            forall|k: int| 0 <= k < result.detections@.len()
                ==> (#[trigger] result.detections@[k]).confidence <= CONF_SCALE,
            body@ == prefix + records_chars(result.detections@.subrange(0, i as int)),
        decreases n - i,
    {
        if i > 0 {
            body = body.concat(",");
        }
        body = body.concat(record_string(&result.detections[i]).as_str());
        i = i + 1;
        proof {
            let pre = result.detections@.subrange(0, i - 1 as int);
            let cur = result.detections@.subrange(0, i as int);
            assert(cur =~= pre.push(result.detections@[i - 1]));
            lemma_records_chars_push(pre, result.detections@[i - 1]);
            reveal_strlit(",");
            assert(","@ =~= seq![',']);
            if pre.len() == 0 {
                assert(prefix + records_chars(pre) =~= prefix);
                assert(body@ =~= prefix + records_chars(cur));
            } else {
                assert(body@ =~= prefix + records_chars(cur));
            }
        }
    }
    let r = body.concat("]}");
    proof {
        assert(result.detections@.subrange(0, n as int) =~= result.detections@);
        assert(r@ =~= success_chars(result.detections@));
    }
    r
}

/// The failure body of an error, as a string. The error's message is embedded
/// verbatim.
pub fn failure_body(err: &AppError) -> (r: String)
    ensures
        r@ == failure_chars(err.spec_message()),
{
    let r = String::from_str("{\"success\":false,\"error\":\"")
        .concat(err.message().as_str())
        .concat("\"}");
    proof {
        assert(r@ =~= failure_chars(err.spec_message()));
    }
    r
}

// ------------------------------------------------------------------
// The parser.
// ------------------------------------------------------------------

/// Where a literal sits at a position: the position after it, if it is there.
pub open spec fn expect_at(s: Seq<char>, i: int, lit: Seq<char>) -> Option<int> {
    if 0 <= i && i + lit.len() <= s.len() && s.subrange(i, i + lit.len()) == lit {
        Some(i + lit.len())
    } else {
        None
    }
}

/// Where a single character sits at a position.
pub open spec fn expect_char_at(s: Seq<char>, i: int, c: char) -> Option<int> {
    if 0 <= i < s.len() && s[i] == c {
        Some(i + 1)
    } else {
        None
    }
}

/// The end of the run of digit characters that starts at a position.
pub open spec fn digits_end(s: Seq<char>, i: int) -> int
    decreases s.len() - i when 0 <= i <= s.len()
{
    if i < s.len() && is_digit(s[i]) {
        digits_end(s, i + 1)
    } else {
        i
    }
}

/// A natural number at a position: the value of the digit run there, if the
/// run is not empty and the value does not pass the cap.
pub open spec fn parse_nat_at(s: Seq<char>, i: int, cap: u64) -> Option<(u64, int)> {
    let end = digits_end(s, i);
    if end == i {
        None
    } else {
        let v = seq_val(s.subrange(i, end));
        if v > cap {
            None
        } else {
            Some((v as u64, end))
        }
    }
}

/// An integer at a position: an optional minus sign before a magnitude.
pub open spec fn parse_int_at(s: Seq<char>, i: int) -> Option<(i64, int)> {
    if 0 <= i < s.len() && s[i] == '-' {
        match parse_nat_at(s, i + 1, 0x7fff_ffff_ffff_ffffu64) {
            Some(p) => Some(((-(p.0 as int)) as i64, p.1)),
            None => None,
        }
    } else {
        match parse_nat_at(s, i, 0x7fff_ffff_ffff_ffffu64) {
            Some(p) => Some((p.0 as i64, p.1)),
            None => None,
        }
    }
}

/// A fixed-point confidence at a position: a leading zero or one, a point,
/// and exactly three decimals, within the unit interval.
pub open spec fn parse_conf_at(s: Seq<char>, i: int) -> Option<(u32, int)> {
    if 0 <= i && i + 5 <= s.len() && (s[i] == '0' || s[i] == '1') && s[i + 1] == '.' && is_digit(
        s[i + 2],
    ) && is_digit(s[i + 3]) && is_digit(s[i + 4]) {
        let v = digit_val(s[i]) * 1000 + digit_val(s[i + 2]) * 100 + digit_val(s[i + 3]) * 10
            + digit_val(s[i + 4]);
        if v <= 1000 {
            Some((v as u32, i + 5))
        } else {
            None
        }
    } else {
        None
    }
}

/// One detection record at a position.
pub open spec fn parse_record_at(s: Seq<char>, i: int) -> Option<(BBoxRecord, int)> {
    match expect_at(s, i, "{\"bbox\":["@) {
        None => None,
        Some(j1) => match parse_int_at(s, j1) {
            None => None,
            Some((x1, j2)) => match expect_char_at(s, j2, ',') {
                None => None,
                Some(j3) => match parse_int_at(s, j3) {
                    None => None,
                    Some((y1, j4)) => match expect_char_at(s, j4, ',') {
                        None => None,
                        Some(j5) => match parse_int_at(s, j5) {
                            None => None,
                            Some((x2, j6)) => match expect_char_at(s, j6, ',') {
                                None => None,
                                Some(j7) => match parse_int_at(s, j7) {
                                    None => None,
                                    Some((y2, j8)) => match expect_at(
                                        s,
                                        j8,
                                        "],\"confidence\":"@,
                                    ) {
                                        None => None,
                                        Some(j9) => match parse_conf_at(s, j9) {
                                            None => None,
                                            Some((conf, j10)) => match expect_at(
                                                s,
                                                j10,
                                                ",\"class_id\":"@,
                                            ) {
                                                None => None,
                                                Some(j11) => match parse_nat_at(
                                                    s,
                                                    j11,
                                                    0x7fff_ffffu64,
                                                ) {
                                                    None => None,
                                                    Some((cid, j12)) => match expect_char_at(
                                                        s,
                                                        j12,
                                                        '}',
                                                    ) {
                                                        None => None,
                                                        Some(j13) => Some(
                                                            (
                                                                BBoxRecord {
                                                                    x1,
                                                                    y1,
                                                                    x2,
                                                                    y2,
                                                                    confidence: conf,
                                                                    class_id: cid as i32,
                                                                },
                                                                j13,
                                                            ),
                                                        ),
                                                    },
                                                },
                                            },
                                        },
                                    },
                                },
                            },
                        },
                    },
                },
            },
        },
    }
}

/// Exactly `n` comma-separated records at a position.
pub open spec fn parse_records_at(s: Seq<char>, i: int, n: nat) -> Option<(Seq<BBoxRecord>, int)>
    decreases n,
{
    if n == 0 {
        Some((Seq::empty(), i))
    } else {
        match parse_record_at(s, i) {
            None => None,
            Some((rec, j)) => if n == 1 {
                Some((seq![rec], j))
            } else {
                match expect_char_at(s, j, ',') {
                    None => None,
                    Some(j2) => match parse_records_at(s, j2, (n - 1) as nat) {
                        None => None,
                        Some((rest, k)) => Some((seq![rec] + rest, k)),
                    },
                }
            },
        }
    }
}

/// The record sequence a whole success body denotes, if the input is one:
/// the count named by `num_faces` must match the list, and the body must end
/// with the input.
pub open spec fn parse_success(s: Seq<char>) -> Option<Seq<BBoxRecord>> {
    match expect_at(s, 0, "{\"success\":true,\"num_faces\":"@) {
        None => None,
        Some(i) => match parse_nat_at(s, i, usize::MAX as u64) {
            None => None,
            Some((n, j)) => match expect_at(s, j, ",\"detections\":["@) {
                None => None,
                Some(k) => match parse_records_at(s, k, n as nat) {
                    None => None,
                    Some((recs, m)) => match expect_at(s, m, "]}"@) {
                        None => None,
                        Some(e) => if e == s.len() {
                            Some(recs)
                        } else {
                            None
                        },
                    },
                },
            },
        },
    }
}

// ------------------------------------------------------------------
// The executable parser.
// ------------------------------------------------------------------

fn expect_str(s: &str, i: usize, lit: &str) -> (r: Option<usize>)
    requires
        i <= s@.len(),
    ensures
        r matches Some(j) ==> expect_at(s@, i as int, lit@) == Some(j as int) && i <= j <= s@.len(),
        r is None ==> expect_at(s@, i as int, lit@) is None,
{
    let slen = s.unicode_len();
    let llen = lit.unicode_len();
    if llen > slen - i {
        return None;
    }
    let mut j: usize = 0;
    while j < llen
        invariant
            j <= llen,
            i + llen <= slen,
            slen == s@.len(),
            llen == lit@.len(),
            forall|m: int| 0 <= m < j ==> s@[i + m] == lit@[m],
        decreases llen - j,
    {
        let a = s.get_char(i + j);
        let b = lit.get_char(j);
        if a != b {
            proof {
                assert(s@.subrange(i as int, i + llen as int)[j as int] == s@[i + j]);
            }
            return None;
        }
        j = j + 1;
    }
    proof {
        assert(s@.subrange(i as int, (i + llen) as int) =~= lit@);
    }
    Some(i + llen)
}

fn expect_char(s: &str, i: usize, c: char) -> (r: Option<usize>)
    requires
        i <= s@.len(),
    ensures
        r matches Some(j) ==> expect_char_at(s@, i as int, c) == Some(j as int) && j <= s@.len(),
        r is None ==> expect_char_at(s@, i as int, c) is None,
{
    let slen = s.unicode_len();
    if i < slen && s.get_char(i) == c {
        Some(i + 1)
    } else {
        None
    }
}

/// Every position before the end of a digit run holds a digit, and the run
/// stops at a non-digit or at the end.
proof fn lemma_digits_end(s: Seq<char>, i: int)
    requires
        0 <= i <= s.len(),
    ensures
        i <= digits_end(s, i) <= s.len(),
        forall|m: int| i <= m < digits_end(s, i) ==> is_digit(#[trigger] s[m]),
        digits_end(s, i) == s.len() || !is_digit(s[digits_end(s, i)]),
    decreases s.len() - i,
{
    if i < s.len() && is_digit(s[i]) {
        lemma_digits_end(s, i + 1);
    }
}

fn parse_nat_str(s: &str, i: usize, cap: u64) -> (r: Option<(u64, usize)>)
    requires
        i <= s@.len(),
    ensures
        r matches Some(p) ==> parse_nat_at(s@, i as int, cap) == Some((p.0, p.1 as int)) && i < p.1
            <= s@.len() && p.0 <= cap,
        r is None ==> parse_nat_at(s@, i as int, cap) is None,
{
    let slen = s.unicode_len();
    let mut j = i;
    let mut acc: u64 = 0;
    while j < slen
        invariant
            i <= j <= slen,
            slen == s@.len(),
            cap <= u64::MAX,
            forall|m: int| i <= m < j ==> is_digit(#[trigger] s@[m]),
            digits_end(s@, i as int) == digits_end(s@, j as int),
            acc == seq_val(s@.subrange(i as int, j as int)),
            acc <= cap,
        ensures
            i <= j <= slen,
            forall|m: int| i <= m < j ==> is_digit(#[trigger] s@[m]),
            acc == seq_val(s@.subrange(i as int, j as int)),
            acc <= cap,
            digits_end(s@, i as int) == j,
        decreases slen - j,
    {
        let c = s.get_char(j);
        let u = c as u32;
        if u < 48 || u > 57 {
            break;
        }
        let d = (u - 48) as u64;
        let wide = (acc as u128) * 10 + (d as u128);
        proof {
            let t = s@.subrange(i as int, j + 1 as int);
            assert(t.drop_last() =~= s@.subrange(i as int, j as int));
            assert(t.last() == s@[j as int]);
            assert(digit_val(s@[j as int]) == d);
        }
        if wide > cap as u128 {
            proof {
                lemma_digits_end(s@, j as int);
                let de = digits_end(s@, i as int);
                assert(digits_end(s@, j as int) == digits_end(s@, j + 1 as int));
                lemma_digits_end(s@, j + 1 as int);
                assert(de >= j + 1);
                assert(forall|m: int| i <= m < de ==> is_digit(#[trigger] s@[m]));
                lemma_seq_val_extend(s@, i as int, j + 1 as int, de);
                assert(seq_val(s@.subrange(i as int, j + 1 as int)) == acc * 10 + d);
                assert(seq_val(s@.subrange(i as int, de)) > cap);
            }
            return None;
        }
        acc = wide as u64;
        j = j + 1;
        proof {
            assert(digits_end(s@, j - 1 as int) == digits_end(s@, j as int));
        }
    }
    if j == i {
        return None;
    }
    Some((acc, j))
}

fn parse_int_str(s: &str, i: usize) -> (r: Option<(i64, usize)>)
    requires
        i <= s@.len(),
    ensures
        r matches Some(p) ==> parse_int_at(s@, i as int) == Some((p.0, p.1 as int)) && i < p.1
            <= s@.len(),
        r is None ==> parse_int_at(s@, i as int) is None,
{
    let slen = s.unicode_len();
    if i < slen && s.get_char(i) == '-' {
        match parse_nat_str(s, i + 1, 0x7fff_ffff_ffff_ffffu64) {
            Some(p) => {
                let v = -(p.0 as i64);
                Some((v, p.1))
            },
            None => None,
        }
    } else {
        match parse_nat_str(s, i, 0x7fff_ffff_ffff_ffffu64) {
            Some(p) => Some((p.0 as i64, p.1)),
            None => None,
        }
    }
}

fn parse_conf_str(s: &str, i: usize) -> (r: Option<(u32, usize)>)
    requires
        i <= s@.len(),
    ensures
        r matches Some(p) ==> parse_conf_at(s@, i as int) == Some((p.0, p.1 as int)) && i < p.1
            <= s@.len(),
        r is None ==> parse_conf_at(s@, i as int) is None,
{
    let slen = s.unicode_len();
    if slen - i < 5 {
        return None;
    }
    let c0 = s.get_char(i);
    if !(c0 == '0' || c0 == '1') {
        return None;
    }
    if s.get_char(i + 1) != '.' {
        return None;
    }
    let c2 = s.get_char(i + 2);
    let u2 = c2 as u32;
    if u2 < 48 || u2 > 57 {
        return None;
    }
    let c3 = s.get_char(i + 3);
    let u3 = c3 as u32;
    if u3 < 48 || u3 > 57 {
        return None;
    }
    let c4 = s.get_char(i + 4);
    let u4 = c4 as u32;
    if u4 < 48 || u4 > 57 {
        return None;
    }
    let lead: u32 = if c0 == '1' {
        1
    } else {
        0
    };
    proof {
        assert(digit_val(s@[i as int]) == lead);
    }
    let v = lead * 1000 + (u2 - 48) * 100 + (u3 - 48) * 10 + (u4 - 48);
    if v > 1000 {
        return None;
    }
    Some((v, i + 5))
}

fn parse_record_str(s: &str, i: usize) -> (r: Option<(BBoxRecord, usize)>)
    requires
        i <= s@.len(),
    ensures
        r matches Some(p) ==> parse_record_at(s@, i as int) == Some((p.0, p.1 as int)) && i < p.1
            <= s@.len(),
        r is None ==> parse_record_at(s@, i as int) is None,
{
    let j1 = match expect_str(s, i, "{\"bbox\":[") {
        Some(j) => j,
        None => {
            return None;
        },
    };
    let (x1, j2) = match parse_int_str(s, j1) {
        Some(p) => p,
        None => {
            return None;
        },
    };
    let j3 = match expect_char(s, j2, ',') {
        Some(j) => j,
        None => {
            return None;
        },
    };
    let (y1, j4) = match parse_int_str(s, j3) {
        Some(p) => p,
        None => {
            return None;
        },
    };
    let j5 = match expect_char(s, j4, ',') {
        Some(j) => j,
        None => {
            return None;
        },
    };
    let (x2, j6) = match parse_int_str(s, j5) {
        Some(p) => p,
        None => {
            return None;
        },
    };
    let j7 = match expect_char(s, j6, ',') {
        Some(j) => j,
        None => {
            return None;
        },
    };
    let (y2, j8) = match parse_int_str(s, j7) {
        Some(p) => p,
        None => {
            return None;
        },
    };
    let j9 = match expect_str(s, j8, "],\"confidence\":") {
        Some(j) => j,
        None => {
            return None;
        },
    };
    let (conf, j10) = match parse_conf_str(s, j9) {
        Some(p) => p,
        None => {
            return None;
        },
    };
    let j11 = match expect_str(s, j10, ",\"class_id\":") {
        Some(j) => j,
        None => {
            return None;
        },
    };
    let (cid, j12) = match parse_nat_str(s, j11, 0x7fff_ffffu64) {
        Some(p) => p,
        None => {
            return None;
        },
    };
    let j13 = match expect_char(s, j12, '}') {
        Some(j) => j,
        None => {
            return None;
        },
    };
    let rec = BBoxRecord { x1, y1, x2, y2, confidence: conf, class_id: cid as i32 };
    Some((rec, j13))
}

/// The record sequence a whole success body denotes, if the input is one.
#[verifier::loop_isolation(false)]
#[verifier::rlimit(50)]
pub fn parse_success_body(s: &str) -> (r: Option<Vec<BBoxRecord>>)
    ensures
        r matches Some(v) ==> parse_success(s@) == Some(v@),
        r is None ==> parse_success(s@) is None,
{
    let slen = s.unicode_len();
    let i = match expect_str(s, 0, "{\"success\":true,\"num_faces\":") {
        Some(j) => j,
        None => {
            return None;
        },
    };
    let (n, j) = match parse_nat_str(s, i, usize::MAX as u64) {
        Some(p) => p,
        None => {
            return None;
        },
    };
    let k = match expect_str(s, j, ",\"detections\":[") {
        Some(j2) => j2,
        None => {
            return None;
        },
    };
    let n_usize = n as usize;
    let mut recs: Vec<BBoxRecord> = Vec::new();
    let mut pos = k;
    let mut t: usize = 0;
    proof {
        if let Some(p) = parse_records_at(s@, pos as int, (n_usize - t) as nat) {
            assert(recs@ + p.0 =~= p.0);
        }
    }
    while t < n_usize
        invariant
            t <= n_usize,
            pos <= s@.len(),
            (match parse_records_at(s@, pos as int, (n_usize - t) as nat) {
                None => parse_records_at(s@, k as int, n_usize as nat) is None,
                Some(p) => parse_records_at(s@, k as int, n_usize as nat) == Some(
                    (recs@ + p.0, p.1),
                ),
            }),
        decreases n_usize - t,
    {
        let (rec, j2) = match parse_record_str(s, pos) {
            Some(p) => p,
            None => {
                return None;
            },
        };
        if t < n_usize - 1 {
            let j3 = match expect_char(s, j2, ',') {
                Some(j3) => j3,
                None => {
                    return None;
                },
            };
            recs.push(rec);
            proof {
                if let Some(p) = parse_records_at(s@, j3 as int, (n_usize - t - 1) as nat) {
                    assert(recs@ + p.0 =~= recs@.drop_last() + (seq![rec] + p.0));
                }
            }
            pos = j3;
        } else {
            recs.push(rec);
            proof {
                assert(parse_records_at(s@, pos as int, 1) == Some((seq![rec], j2 as int)));
                assert(recs@ =~= recs@.drop_last() + seq![rec]);
                if let Some(p) = parse_records_at(s@, j2 as int, 0) {
                    assert(recs@ + p.0 =~= recs@);
                }
            }
            pos = j2;
        }
        t = t + 1;
    }
    proof {
        assert(recs@ + Seq::<BBoxRecord>::empty() =~= recs@);
        assert(parse_records_at(s@, k as int, n_usize as nat) == Some((recs@, pos as int)));
    }
    let m = match expect_str(s, pos, "]}") {
        Some(j2) => j2,
        None => {
            return None;
        },
    };
    if m != slen {
        return None;
    }
    Some(recs)
}

// ------------------------------------------------------------------
// The round trip: parsing what was serialized gives back the records.
// ------------------------------------------------------------------

/// A subrange of a region equals the region's own subrange.
proof fn lemma_subrange_of_region(s: Seq<char>, i: int, r: Seq<char>, a: int, b: int)
    requires
        0 <= i,
        i + r.len() <= s.len(),
        s.subrange(i, i + r.len()) == r,
        0 <= a <= b <= r.len(),
    ensures
        s.subrange(i + a, i + b) == r.subrange(a, b),
{
    assert(forall|m: int| 0 <= m < r.len() ==> s[i + m] == #[trigger] r[m]) by {
        assert(forall|m: int| 0 <= m < r.len() ==> #[trigger] s.subrange(i, i + r.len())[m] == s[
            i + m
        ]);
    }
    assert(s.subrange(i + a, i + b) =~= r.subrange(a, b));
}

/// A digit run that ends at a non-digit or at the end of the input ends
/// exactly there.
proof fn lemma_digits_end_region(s: Seq<char>, i: int, j: int)
    requires
        0 <= i <= j <= s.len(),
        forall|m: int| i <= m < j ==> is_digit(#[trigger] s[m]),
        j == s.len() || !is_digit(s[j]),
    ensures
        digits_end(s, i) == j,
    decreases j - i,
{
    if i < j {
        lemma_digits_end_region(s, i + 1, j);
    }
}

/// Decimal notation sitting at a position, delimited by a non-digit, parses
/// back to the number it was made from.
proof fn lemma_parse_nat_exact(s: Seq<char>, i: int, n: nat, cap: u64)
    requires
        0 <= i,
        i + dec_nat(n).len() <= s.len(),
        s.subrange(i, i + dec_nat(n).len()) == dec_nat(n),
        i + dec_nat(n).len() == s.len() || !is_digit(s[i + dec_nat(n).len()]),
        n <= cap,
    ensures
        parse_nat_at(s, i, cap) == Some((n as u64, i + dec_nat(n).len())),
{
    lemma_dec_nat(n);
    let d = dec_nat(n);
    let j = i + d.len();
    assert(forall|m: int| 0 <= m < d.len() ==> s[i + m] == #[trigger] d[m]) by {
        assert(forall|m: int| 0 <= m < d.len() ==> #[trigger] s.subrange(i, i + d.len())[m] == s[
            i + m
        ]);
    }
    assert(forall|m: int| i <= m < j ==> is_digit(#[trigger] s[m])) by {
        assert(forall|m: int| i <= m < j ==> s[m] == d[m - i]);
    }
    lemma_digits_end_region(s, i, j);
    assert(s.subrange(i, j) == d);
    assert(seq_val(s.subrange(i, j)) == n);
}

/// Integer notation sitting at a position, delimited by a non-digit, parses
/// back to the integer it was made from.
proof fn lemma_parse_int_exact(s: Seq<char>, i: int, v: int)
    requires
        -0x7fff_ffff_ffff_ffff <= v <= 0x7fff_ffff_ffff_ffff,
        0 <= i,
        i + dec_int(v).len() <= s.len(),
        s.subrange(i, i + dec_int(v).len()) == dec_int(v),
        i + dec_int(v).len() == s.len() || !is_digit(s[i + dec_int(v).len()]),
    ensures
        parse_int_at(s, i) == Some((v as i64, i + dec_int(v).len())),
{
    let d = dec_int(v);
    assert(forall|m: int| 0 <= m < d.len() ==> s[i + m] == #[trigger] d[m]) by {
        assert(forall|m: int| 0 <= m < d.len() ==> #[trigger] s.subrange(i, i + d.len())[m] == s[
            i + m
        ]);
    }
    if v < 0 {
        let mag = dec_nat((-v) as nat);
        lemma_dec_nat((-v) as nat);
        assert(d == seq!['-'] + mag);
        assert(d[0] == '-');
        assert(s[i] == '-');
        lemma_subrange_of_region(s, i, d, 1, d.len() as int);
        assert(d.subrange(1, d.len() as int) =~= mag);
        lemma_parse_nat_exact(s, i + 1, (-v) as nat, 0x7fff_ffff_ffff_ffffu64);
    } else {
        lemma_dec_nat(v as nat);
        assert(s[i] == d[0]);
        assert(is_digit(d[0]));
        assert(!is_digit('-'));
        assert(s[i] != '-');
        lemma_parse_nat_exact(s, i, v as nat, 0x7fff_ffff_ffff_ffffu64);
    }
}

/// Confidence notation sitting at a position parses back to the fixed-point
/// value it was made from.
proof fn lemma_parse_conf_exact(s: Seq<char>, i: int, c: nat)
    requires
        c <= 1000,
        0 <= i,
        i + 5 <= s.len(),
        s.subrange(i, i + 5) == conf_chars(c),
    ensures
        parse_conf_at(s, i) == Some((c as u32, i + 5)),
{
    let cf = conf_chars(c);
    assert(forall|m: int| 0 <= m < 5 ==> s[i + m] == #[trigger] cf[m]) by {
        assert(forall|m: int| 0 <= m < 5 ==> #[trigger] s.subrange(i, i + 5)[m] == s[i + m]);
    }
    assert(s[i] == digit_char((c / 1000) as int));
    if c < 1000 {
        assert(c / 1000 == 0);
    } else {
        assert(c / 1000 == 1);
    }
    assert(s[i] == '0' || s[i] == '1');
    assert(s[i + 1] == '.');
    assert(is_digit(s[i + 2]) && is_digit(s[i + 3]) && is_digit(s[i + 4]));
    let cu = c as u32;
    assert(cu <= 1000 ==> (cu / 1000) * 1000 + ((cu / 100) % 10) * 100 + ((cu / 10) % 10) * 10 + (
    cu % 10) == cu) by (bit_vector);
    assert(digit_val(s[i]) == c / 1000);
    assert(digit_val(s[i + 2]) == (c / 100) % 10);
    assert(digit_val(s[i + 3]) == (c / 10) % 10);
    assert(digit_val(s[i + 4]) == c % 10);
}

/// A record's notation sitting at a position parses back to the record.
#[verifier::rlimit(100)]
proof fn lemma_parse_record_exact(s: Seq<char>, i: int, rec: BBoxRecord)
    requires
        rec.wf(),
        0 <= i,
        i + record_chars(rec).len() <= s.len(),
        s.subrange(i, i + record_chars(rec).len()) == record_chars(rec),
    ensures
        parse_record_at(s, i) == Some((rec, i + record_chars(rec).len())),
{
    let g1 = "{\"bbox\":["@;
    let t1 = dec_int(rec.x1 as int);
    let cm = seq![','];
    let t2 = dec_int(rec.y1 as int);
    let t3 = dec_int(rec.x2 as int);
    let t4 = dec_int(rec.y2 as int);
    let g2 = "],\"confidence\":"@;
    let cf = conf_chars(rec.confidence as nat);
    let g3 = ",\"class_id\":"@;
    let t5 = dec_int(rec.class_id as int);
    let br = seq!['}'];
    let rc = record_chars(rec);
    let p1 = i + g1.len();
    let p2 = p1 + t1.len();
    let p3 = p2 + 1;
    let p4 = p3 + t2.len();
    let p5 = p4 + 1;
    let p6 = p5 + t3.len();
    let p7 = p6 + 1;
    let p8 = p7 + t4.len();
    let p9 = p8 + g2.len();
    let p10 = p9 + 5;
    let p11 = p10 + g3.len();
    let p12 = p11 + t5.len();
    let p13 = p12 + 1;
    assert(rc == g1 + t1 + cm + t2 + cm + t3 + cm + t4 + g2 + cf + g3 + t5 + br);
    assert(rc.len() == g1.len() + t1.len() + 1 + t2.len() + 1 + t3.len() + 1 + t4.len() + g2.len()
        + 5 + g3.len() + t5.len() + 1);
    assert(rc.subrange(0, g1.len() as int) =~= g1);
    lemma_subrange_of_region(s, i, rc, 0, g1.len() as int);
    assert(rc.subrange(p1 - i, p2 - i) =~= t1);
    lemma_subrange_of_region(s, i, rc, p1 - i, p2 - i);
    assert(rc.subrange(p2 - i, p3 - i) =~= cm);
    lemma_subrange_of_region(s, i, rc, p2 - i, p3 - i);
    assert(rc.subrange(p3 - i, p4 - i) =~= t2);
    lemma_subrange_of_region(s, i, rc, p3 - i, p4 - i);
    assert(rc.subrange(p4 - i, p5 - i) =~= cm);
    lemma_subrange_of_region(s, i, rc, p4 - i, p5 - i);
    assert(rc.subrange(p5 - i, p6 - i) =~= t3);
    lemma_subrange_of_region(s, i, rc, p5 - i, p6 - i);
    assert(rc.subrange(p6 - i, p7 - i) =~= cm);
    lemma_subrange_of_region(s, i, rc, p6 - i, p7 - i);
    assert(rc.subrange(p7 - i, p8 - i) =~= t4);
    lemma_subrange_of_region(s, i, rc, p7 - i, p8 - i);
    assert(rc.subrange(p8 - i, p9 - i) =~= g2);
    lemma_subrange_of_region(s, i, rc, p8 - i, p9 - i);
    assert(rc.subrange(p9 - i, p10 - i) =~= cf);
    lemma_subrange_of_region(s, i, rc, p9 - i, p10 - i);
    assert(rc.subrange(p10 - i, p11 - i) =~= g3);
    lemma_subrange_of_region(s, i, rc, p10 - i, p11 - i);
    assert(rc.subrange(p11 - i, p12 - i) =~= t5);
    lemma_subrange_of_region(s, i, rc, p11 - i, p12 - i);
    assert(rc.subrange(p12 - i, p13 - i) =~= br);
    lemma_subrange_of_region(s, i, rc, p12 - i, p13 - i);
    assert(s.subrange(p2, p3)[0] == s[p2]);
    assert(s[p2] == ',');
    assert(s.subrange(p4, p5)[0] == s[p4]);
    assert(s[p4] == ',');
    assert(s.subrange(p6, p7)[0] == s[p6]);
    assert(s[p6] == ',');
    assert(s.subrange(p12, p13)[0] == s[p12]);
    assert(s[p12] == '}');
    reveal_strlit("],\"confidence\":");
    assert(g2.len() >= 1);
    assert(s.subrange(p8, p9)[0] == s[p8]);
    assert(s[p8] == ']');
    assert(!is_digit(','));
    assert(!is_digit(']'));
    assert(!is_digit('}'));
    assert(expect_at(s, i, g1) == Some(p1));
    lemma_parse_int_exact(s, p1, rec.x1 as int);
    assert(expect_char_at(s, p2, ',') == Some(p3));
    lemma_parse_int_exact(s, p3, rec.y1 as int);
    assert(expect_char_at(s, p4, ',') == Some(p5));
    lemma_parse_int_exact(s, p5, rec.x2 as int);
    assert(expect_char_at(s, p6, ',') == Some(p7));
    lemma_parse_int_exact(s, p7, rec.y2 as int);
    assert(expect_at(s, p8, g2) == Some(p9));
    lemma_parse_conf_exact(s, p9, rec.confidence as nat);
    assert(expect_at(s, p10, g3) == Some(p11));
    assert(s[p12] == '}');
    lemma_parse_nat_exact(s, p11, rec.class_id as nat, 0x7fff_ffffu64);
    assert(expect_char_at(s, p12, '}') == Some(p13));
    assert(parse_record_at(s, i) == Some((rec, p13)));
}

/// A record sequence's notation sitting at a position parses back to the
/// sequence.
#[verifier::rlimit(100)]
proof fn lemma_parse_records_exact(s: Seq<char>, i: int, recs: Seq<BBoxRecord>)
    requires
        forall|m: int| 0 <= m < recs.len() ==> (#[trigger] recs[m]).wf(),
        0 <= i,
        i + records_chars(recs).len() <= s.len(),
        s.subrange(i, i + records_chars(recs).len()) == records_chars(recs),
    ensures
        parse_records_at(s, i, recs.len()) == Some((recs, i + records_chars(recs).len())),
    decreases recs.len(),
{
    let rc = records_chars(recs);
    if recs.len() == 0 {
        assert(recs =~= Seq::<BBoxRecord>::empty());
    } else if recs.len() == 1 {
        assert(rc == record_chars(recs[0]));
        lemma_parse_record_exact(s, i, recs[0]);
        assert(seq![recs[0]] =~= recs);
    } else {
        let r0 = record_chars(recs[0]);
        let rest = records_chars(recs.drop_first());
        assert(rc == r0 + seq![','] + rest);
        let q1 = i + r0.len();
        let q2 = q1 + 1;
        let q3 = q2 + rest.len();
        assert(rc.subrange(0, r0.len() as int) =~= r0);
        lemma_subrange_of_region(s, i, rc, 0, r0.len() as int);
        assert(rc.subrange(q1 - i, q2 - i) =~= seq![',']);
        lemma_subrange_of_region(s, i, rc, q1 - i, q2 - i);
        assert(rc.subrange(q2 - i, q3 - i) =~= rest);
        lemma_subrange_of_region(s, i, rc, q2 - i, q3 - i);
        lemma_parse_record_exact(s, i, recs[0]);
        assert(s.subrange(q1, q2)[0] == s[q1]);
        assert(s[q1] == ',');
        assert(expect_char_at(s, q1, ',') == Some(q2));
        assert(forall|m: int| 0 <= m < recs.drop_first().len()
            ==> (#[trigger] recs.drop_first()[m]).wf()) by {
            assert(forall|m: int| 0 <= m < recs.drop_first().len() ==> recs.drop_first()[m]
                == recs[m + 1]);
        }
        lemma_parse_records_exact(s, q2, recs.drop_first());
        assert(seq![recs[0]] + recs.drop_first() =~= recs);
    }
}

/// The round trip of the wire format: the success body serialized from any
/// sequence of well-formed records parses back to exactly that sequence.
#[verifier::rlimit(50)]
pub proof fn lemma_wire_round_trip(recs: Seq<BBoxRecord>)
    requires
        forall|m: int| 0 <= m < recs.len() ==> (#[trigger] recs[m]).wf(),
        recs.len() <= usize::MAX,
    ensures
        parse_success(success_chars(recs)) == Some(recs),
{
    let s = success_chars(recs);
    let h1 = "{\"success\":true,\"num_faces\":"@;
    let d = dec_nat(recs.len());
    let h2 = ",\"detections\":["@;
    let rc = records_chars(recs);
    let tail = "]}"@;
    assert(s == h1 + d + h2 + rc + tail);
    let q1 = h1.len() as int;
    let q2 = q1 + d.len();
    let q3 = q2 + h2.len();
    let q4 = q3 + rc.len();
    let q5 = q4 + tail.len();
    assert(s.len() == q5);
    assert(s.subrange(0, q1) =~= h1);
    assert(s.subrange(q1, q2) =~= d);
    assert(s.subrange(q2, q3) =~= h2);
    assert(s.subrange(q3, q4) =~= rc);
    assert(s.subrange(q4, q5) =~= tail);
    assert(expect_at(s, 0, h1) == Some(q1));
    reveal_strlit(",\"detections\":[");
    assert(h2.len() >= 1);
    assert(s.subrange(q2, q3)[0] == s[q2]);
    assert(s[q2] == ',');
    assert(!is_digit(','));
    lemma_parse_nat_exact(s, q1, recs.len(), usize::MAX as u64);
    assert(expect_at(s, q2, h2) == Some(q3));
    lemma_parse_records_exact(s, q3, recs);
    assert(expect_at(s, q4, tail) == Some(q5));
}

} // verus!
