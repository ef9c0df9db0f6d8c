//! The feature record of one collection pass and its line-oriented text
//! form: one `key=value` pair per line under the `rebellions.ai` namespace,
//! every line but the presence flag omitted when its value is unset, and an
//! optional leading expiry annotation.

use vstd::prelude::*;
use crate::text::all_digits;
use crate::text::char_pred;
use crate::text::dec_of;
use crate::text::dec_val;
use crate::text::digit_char_of;
use crate::text::digit_val;
use crate::text::find_char;
use crate::text::first_at;
use crate::text::is_digit;
use crate::text::lemma_first_at_bounds;
use crate::text::lemma_first_at_found;
use crate::text::parse_u8;
use crate::text::str_eq;
use crate::text::str_starts_with;
use crate::text::u8_parse_ok;
use crate::text::u8_to_string;

verus! {

/// The result of one collection pass. Only the presence flag is always
/// known; device fields are set together when devices were found, and
/// driver-version fields independently of them, as far as a version could be
/// determined.
#[derive(Debug, Clone)]
pub struct RBLNFeatures {
    pub npu_present: bool,
    pub npu_count: Option<u8>,
    pub npu_family: Option<String>,
    pub npu_product: Option<String>,
    pub driver_version_full: Option<String>,
    pub driver_version_major: Option<String>,
    pub driver_version_minor: Option<String>,
    pub driver_version_patch: Option<String>,
    pub driver_version_revision: Option<String>,
}

/// The record under its mathematical view: each text field as a character
/// sequence.
pub struct FeatureView {
    pub npu_present: bool,
    pub npu_count: Option<u8>,
    pub npu_family: Option<Seq<char>>,
    pub npu_product: Option<Seq<char>>,
    pub driver_version_full: Option<Seq<char>>,
    pub driver_version_major: Option<Seq<char>>,
    pub driver_version_minor: Option<Seq<char>>,
    pub driver_version_patch: Option<Seq<char>>,
    pub driver_version_revision: Option<Seq<char>>,
}

pub open spec fn opt_view(o: Option<String>) -> Option<Seq<char>> {
    match o {
        Some(s) => Some(s@),
        None => None,
    }
}

impl View for RBLNFeatures {
    type V = FeatureView;

    open spec fn view(&self) -> FeatureView {
        FeatureView {
            npu_present: self.npu_present,
            npu_count: self.npu_count,
            npu_family: opt_view(self.npu_family),
            npu_product: opt_view(self.npu_product),
            driver_version_full: opt_view(self.driver_version_full),
            driver_version_major: opt_view(self.driver_version_major),
            driver_version_minor: opt_view(self.driver_version_minor),
            driver_version_patch: opt_view(self.driver_version_patch),
            driver_version_revision: opt_view(self.driver_version_revision),
        }
    }
}

/// The record's internal invariant: the presence flag, count, family and
/// product are set together; major, minor and patch are set together and
/// only beside the full version; a revision only beside the full version.
pub open spec fn feature_wf(f: FeatureView) -> bool {
    &&& f.npu_present <==> f.npu_count is Some
    &&& f.npu_count is Some <==> f.npu_family is Some
    &&& f.npu_count is Some <==> f.npu_product is Some
    &&& f.driver_version_major is Some <==> f.driver_version_minor is Some
    &&& f.driver_version_major is Some <==> f.driver_version_patch is Some
    &&& f.driver_version_major is Some ==> f.driver_version_full is Some
    &&& f.driver_version_revision is Some ==> f.driver_version_full is Some
}

/// The view of a freshly created record: nothing known, no devices seen.
pub open spec fn empty_view() -> FeatureView {
    FeatureView {
        npu_present: false,
        npu_count: None,
        npu_family: None,
        npu_product: None,
        driver_version_full: None,
        driver_version_major: None,
        driver_version_minor: None,
        driver_version_patch: None,
        driver_version_revision: None,
    }
}

pub open spec fn bool_text(b: bool) -> Seq<char> {
    if b {
        "true"@
    } else {
        "false"@
    }
}

/// One optional output line: `key` already carries the namespace and the
/// trailing `=`; an unset value contributes nothing.
pub open spec fn opt_line(key: Seq<char>, v: Option<Seq<char>>) -> Seq<char> {
    match v {
        Some(s) => key + s + "\n"@,
        None => Seq::<char>::empty(),
    }
}

pub open spec fn count_view(v: Option<u8>) -> Option<Seq<char>> {
    match v {
        Some(n) => Some(dec_of(n as int)),
        None => None,
    }
}

/// The serialized body: fixed field order, presence always first, every
/// other line present exactly when its field is set.
pub open spec fn spec_plain_text(f: FeatureView) -> Seq<char> {
    "rebellions.ai/npu.present="@ + bool_text(f.npu_present) + "\n"@
        + opt_line("rebellions.ai/npu.count="@, count_view(f.npu_count))
        + opt_line("rebellions.ai/npu.family="@, f.npu_family)
        + opt_line("rebellions.ai/npu.product="@, f.npu_product)
        + opt_line("rebellions.ai/driver-version.full="@, f.driver_version_full)
        + opt_line("rebellions.ai/driver-version.major="@, f.driver_version_major)
        + opt_line("rebellions.ai/driver-version.minor="@, f.driver_version_minor)
        + opt_line("rebellions.ai/driver-version.patch="@, f.driver_version_patch)
        + opt_line("rebellions.ai/driver-version.revision="@, f.driver_version_revision)
}

/// The full output text: the body, under an expiry annotation when one is
/// given.
pub open spec fn spec_rendered(f: FeatureView, expiry: Option<Seq<char>>) -> Seq<char> {
    match expiry {
        Some(ts) => "# +expiry-time="@ + ts + "\n"@ + spec_plain_text(f),
        None => spec_plain_text(f),
    }
}

/// Appends one optional text-valued line to the output being built.
fn push_opt_line(val: &mut String, key: &str, v: &Option<String>)
    ensures
        final(val)@ == old(val)@ + opt_line(key@, opt_view(*v)),
{
    match v {
        Some(s) => {
            val.append(key);
            val.append(s.as_str());
            val.append("\n");
            proof {
                assert(val@ =~= old(val)@ + opt_line(key@, opt_view(*v)));
            }
        },
        None => {
            proof {
                assert(val@ =~= old(val)@ + opt_line(key@, opt_view(*v)));
            }
        },
    }
}

/// Appends the count line, rendering the count in decimal, when it is set.
fn push_count_line(val: &mut String, key: &str, v: &Option<u8>)
    ensures
        final(val)@ == old(val)@ + opt_line(key@, count_view(*v)),
{
    match v {
        Some(n) => {
            val.append(key);
            let cs = u8_to_string(*n);
            val.append(cs.as_str());
            val.append("\n");
            proof {
                assert(val@ =~= old(val)@ + opt_line(key@, count_view(*v)));
            }
        },
        None => {
            proof {
                assert(val@ =~= old(val)@ + opt_line(key@, count_view(*v)));
            }
        },
    }
}

impl RBLNFeatures {
    /// A record as each pass starts: no devices, no driver version.
    pub fn new() -> (r: Self)
        ensures
            r@ == empty_view(),
            feature_wf(r@),
    {
        Self {
            npu_present: false,
            npu_count: None,
            npu_family: None,
            npu_product: None,
            driver_version_full: None,
            driver_version_major: None,
            driver_version_minor: None,
            driver_version_patch: None,
            driver_version_revision: None,
        }
    }

    /// Serializes the record to its line-oriented text body. The presence
    /// line is always emitted, so the body is never empty.
    pub fn to_plain_text(&self) -> (r: String)
        ensures
            r@ == spec_plain_text(self@),
            r@.len() >= 1,
    {
        let mut val = String::new();
        val.append("rebellions.ai/npu.present=");
        if self.npu_present {
            val.append("true");
        } else {
            val.append("false");
        }
        val.append("\n");
        proof {
            assert(val@ =~= "rebellions.ai/npu.present="@ + bool_text(self@.npu_present)
                + "\n"@);
            reveal_strlit("\n");
            assert(val@.len() >= 1);
        }
        push_count_line(&mut val, "rebellions.ai/npu.count=", &self.npu_count);
        push_opt_line(&mut val, "rebellions.ai/npu.family=", &self.npu_family);
        push_opt_line(&mut val, "rebellions.ai/npu.product=", &self.npu_product);
        push_opt_line(&mut val, "rebellions.ai/driver-version.full=", &self.driver_version_full);
        push_opt_line(&mut val, "rebellions.ai/driver-version.major=", &self.driver_version_major);
        push_opt_line(&mut val, "rebellions.ai/driver-version.minor=", &self.driver_version_minor);
        push_opt_line(&mut val, "rebellions.ai/driver-version.patch=", &self.driver_version_patch);
        push_opt_line(
            &mut val,
            "rebellions.ai/driver-version.revision=",
            &self.driver_version_revision,
        );
        val
    }
}

/// No character of `s` ends a line.
pub open spec fn no_newline(s: Seq<char>) -> bool {
    forall|i: int| 0 <= i < s.len() ==> s[i] != '\n'
}

/// Splits off the first line: what precedes the first newline, and what
/// follows it. Text without a newline has no complete line.
pub open spec fn line_split(t: Seq<char>) -> Option<(Seq<char>, Seq<char>)> {
    let i = first_at(t, char_pred('\n'));
    if i < 0 {
        None
    } else {
        Some((t.take(i), t.skip(i + 1)))
    }
}

/// A complete newline-terminated line splits off exactly.
pub proof fn lemma_line_split_of(line: Seq<char>, rest: Seq<char>)
    requires
        no_newline(line),
    ensures
        line_split(line + "\n"@ + rest) == Some((line, rest)),
{
    reveal_strlit("\n");
    let t = line + "\n"@ + rest;
    assert(t[line.len() as int] == '\n');
    assert forall|j: int| 0 <= j < line.len() implies !(char_pred('\n')(t[j])) by {
        assert(t[j] == line[j]);
    }
    lemma_first_at_found(t, char_pred('\n'), line.len() as int);
    assert(t.take(line.len() as int) =~= line);
    assert(t.skip(line.len() as int + 1) =~= rest);
}

/// Consumes one line that must carry `key`: the value after the key, and the
/// remaining text.
pub open spec fn parse_req_line(key: Seq<char>, t: Seq<char>) -> Option<(Seq<char>, Seq<char>)> {
    match line_split(t) {
        None => None,
        Some((line, rest)) => {
            if line.len() >= key.len() && line.take(key.len() as int) == key {
                Some((line.skip(key.len() as int), rest))
            } else {
                None
            }
        },
    }
}

/// Consumes one line if it carries `key`; otherwise leaves the text alone.
pub open spec fn parse_opt_line(key: Seq<char>, t: Seq<char>) -> (Option<Seq<char>>, Seq<char>) {
    match parse_req_line(key, t) {
        Some((v, rest)) => (Some(v), rest),
        None => (None, t),
    }
}

/// A keyed, newline-terminated line parses back to exactly its value.
pub proof fn lemma_parse_req(key: Seq<char>, v: Seq<char>, rest: Seq<char>)
    requires
        no_newline(key),
        no_newline(v),
    ensures
        parse_req_line(key, key + v + "\n"@ + rest) == Some((v, rest)),
        parse_opt_line(key, key + v + "\n"@ + rest) == (Some(v), rest),
{
    let line = key + v;
    assert forall|j: int| 0 <= j < line.len() implies line[j] != '\n' by {
        if j < key.len() {
            assert(line[j] == key[j]);
        } else {
            assert(line[j] == v[j - key.len()]);
        }
    }
    lemma_line_split_of(line, rest);
    assert(line.take(key.len() as int) =~= key);
    assert(line.skip(key.len() as int) =~= v);
}

/// Reads a serialized body back into a record view: the presence line is
/// required, every other line contributes its field when present, and
/// nothing may follow the known lines.
pub open spec fn spec_parse(t: Seq<char>) -> Option<FeatureView> {
    match parse_req_line("rebellions.ai/npu.present="@, t) {
        None => None,
        Some((pv, t1)) => {
            if pv == "true"@ || pv == "false"@ {
                let npu_present = pv == "true"@;
                let (cv, t2) = parse_opt_line("rebellions.ai/npu.count="@, t1);
                if cv matches Some(s) && !u8_parse_ok(s) {
                    None
                } else {
                    let npu_count = match cv {
                        Some(s) => Some(dec_val(s) as u8),
                        None => None,
                    };
                    let (npu_family, t3) = parse_opt_line("rebellions.ai/npu.family="@, t2);
                    let (npu_product, t4) = parse_opt_line("rebellions.ai/npu.product="@, t3);
                    let (driver_version_full, t5) = parse_opt_line(
                        "rebellions.ai/driver-version.full="@,
                        t4,
                    );
                    let (driver_version_major, t6) = parse_opt_line(
                        "rebellions.ai/driver-version.major="@,
                        t5,
                    );
                    let (driver_version_minor, t7) = parse_opt_line(
                        "rebellions.ai/driver-version.minor="@,
                        t6,
                    );
                    let (driver_version_patch, t8) = parse_opt_line(
                        "rebellions.ai/driver-version.patch="@,
                        t7,
                    );
                    let (driver_version_revision, t9) = parse_opt_line(
                        "rebellions.ai/driver-version.revision="@,
                        t8,
                    );
                    if t9.len() == 0 {
                        Some(
                            FeatureView {
                                npu_present,
                                npu_count,
                                npu_family,
                                npu_product,
                                driver_version_full,
                                driver_version_major,
                                driver_version_minor,
                                driver_version_patch,
                                driver_version_revision,
                            },
                        )
                    } else {
                        None
                    }
                }
            } else {
                None
            }
        },
    }
}

/// Whether an optional value is free of newlines (an unset one trivially is).
pub open spec fn opt_no_newline(o: Option<Seq<char>>) -> bool {
    match o {
        Some(s) => no_newline(s),
        None => true,
    }
}

/// Decimal renderings are non-empty digit strings that read back to their
/// value, and digits never end a line.
pub proof fn lemma_dec_of_digits(n: int)
    requires
        0 <= n,
    ensures
        all_digits(dec_of(n)),
        dec_val(dec_of(n)) == n,
        dec_of(n).len() >= 1,
        no_newline(dec_of(n)),
    decreases n,
{
    if n < 10 {
        let s = dec_of(n);
        assert(s.drop_last() =~= Seq::<char>::empty());
        assert(s.last() == digit_char_of(n));
        assert(dec_val(Seq::<char>::empty()) == 0);
        assert(dec_val(s) == digit_val(digit_char_of(n)));
    } else {
        lemma_dec_of_digits(n / 10);
        let p = dec_of(n / 10);
        let s = p.push(digit_char_of(n % 10));
        assert(s.drop_last() =~= p);
        assert(s.last() == digit_char_of(n % 10));
        assert(dec_val(s) == dec_val(p) * 10 + digit_val(digit_char_of(n % 10)));
        assert((n / 10) * 10 + n % 10 == n);
        assert forall|j: int| 0 <= j < s.len() implies is_digit(s[j]) && s[j] != '\n' by {
            if j < p.len() {
                assert(s[j] == p[j]);
            }
        }
    }
}

/// None of the fixed output texts contains a newline.
proof fn lemma_literals_no_newline()
    ensures
        no_newline("rebellions.ai/npu.present="@),
        no_newline("rebellions.ai/npu.count="@),
        no_newline("rebellions.ai/npu.family="@),
        no_newline("rebellions.ai/npu.product="@),
        no_newline("rebellions.ai/driver-version.full="@),
        no_newline("rebellions.ai/driver-version.major="@),
        no_newline("rebellions.ai/driver-version.minor="@),
        no_newline("rebellions.ai/driver-version.patch="@),
        no_newline("rebellions.ai/driver-version.revision="@),
        no_newline("true"@),
        no_newline("false"@),
        no_newline("# +expiry-time="@),
{
    reveal_strlit("rebellions.ai/npu.present=");
    reveal_strlit("rebellions.ai/npu.count=");
    reveal_strlit("rebellions.ai/npu.family=");
    reveal_strlit("rebellions.ai/npu.product=");
    reveal_strlit("rebellions.ai/driver-version.full=");
    reveal_strlit("rebellions.ai/driver-version.major=");
    reveal_strlit("rebellions.ai/driver-version.minor=");
    reveal_strlit("rebellions.ai/driver-version.patch=");
    reveal_strlit("rebellions.ai/driver-version.revision=");
    reveal_strlit("true");
    reveal_strlit("false");
    reveal_strlit("# +expiry-time=");
}

proof fn lemma_add_assoc(a: Seq<char>, b: Seq<char>, c: Seq<char>)
    ensures
        (a + b) + c == a + (b + c),
{
    assert((a + b) + c =~= a + (b + c));
}

/// A line carrying one key never parses as another: keys that differ at
/// some index lying in both reject each other, and the text is left alone.
proof fn lemma_key_mismatch(ki: Seq<char>, kj: Seq<char>, d: int, v: Seq<char>, rest: Seq<char>)
    requires
        0 <= d < ki.len(),
        d < kj.len(),
        ki[d] != kj[d],
        no_newline(kj),
        no_newline(v),
    ensures
        parse_opt_line(ki, kj + v + "\n"@ + rest) == (
            None::<Seq<char>>,
            kj + v + "\n"@ + rest,
        ),
{
    let line = kj + v;
    assert forall|j: int| 0 <= j < line.len() implies line[j] != '\n' by {
        if j < kj.len() {
            assert(line[j] == kj[j]);
        } else {
            assert(line[j] == v[j - kj.len()]);
        }
    }
    lemma_line_split_of(line, rest);
    if line.len() >= ki.len() && line.take(ki.len() as int) == ki {
        assert(line.take(ki.len() as int)[d] == line[d]);
        assert(line[d] == kj[d]);
        assert(false);
    }
}

/// The characters at which the field keys tell each other apart: the npu
/// keys differ among themselves at index 18 and from the driver keys at
/// index 14; the driver keys differ at index 29, major and minor at 30.
proof fn lemma_key_table_facts()
    ensures
        ("rebellions.ai/npu.count="@).len() == 24,
        ("rebellions.ai/npu.family="@).len() == 25,
        ("rebellions.ai/npu.product="@).len() == 26,
        ("rebellions.ai/driver-version.full="@).len() == 34,
        ("rebellions.ai/driver-version.major="@).len() == 35,
        ("rebellions.ai/driver-version.minor="@).len() == 35,
        ("rebellions.ai/driver-version.patch="@).len() == 35,
        ("rebellions.ai/driver-version.revision="@).len() == 38,
        ("rebellions.ai/npu.count="@)[14] == 'n' && ("rebellions.ai/npu.count="@)[18] == 'c',
        ("rebellions.ai/npu.family="@)[14] == 'n' && ("rebellions.ai/npu.family="@)[18] == 'f',
        ("rebellions.ai/npu.product="@)[14] == 'n' && ("rebellions.ai/npu.product="@)[18] == 'p',
        ("rebellions.ai/driver-version.full="@)[14] == 'd'
            && ("rebellions.ai/driver-version.full="@)[29] == 'f',
        ("rebellions.ai/driver-version.major="@)[14] == 'd'
            && ("rebellions.ai/driver-version.major="@)[29] == 'm'
            && ("rebellions.ai/driver-version.major="@)[30] == 'a',
        ("rebellions.ai/driver-version.minor="@)[14] == 'd'
            && ("rebellions.ai/driver-version.minor="@)[29] == 'm'
            && ("rebellions.ai/driver-version.minor="@)[30] == 'i',
        ("rebellions.ai/driver-version.patch="@)[14] == 'd'
            && ("rebellions.ai/driver-version.patch="@)[29] == 'p',
        ("rebellions.ai/driver-version.revision="@)[14] == 'd'
            && ("rebellions.ai/driver-version.revision="@)[29] == 'r',
        ("true"@).len() == 4,
        ("false"@).len() == 5,
{
    reveal_strlit("rebellions.ai/npu.count=");
    reveal_strlit("rebellions.ai/npu.family=");
    reveal_strlit("rebellions.ai/npu.product=");
    reveal_strlit("rebellions.ai/driver-version.full=");
    reveal_strlit("rebellions.ai/driver-version.major=");
    reveal_strlit("rebellions.ai/driver-version.minor=");
    reveal_strlit("rebellions.ai/driver-version.patch=");
    reveal_strlit("rebellions.ai/driver-version.revision=");
    reveal_strlit("true");
    reveal_strlit("false");
}

/// Exhausted text holds no line for any key to consume.
proof fn lemma_parse_opt_empty(key: Seq<char>)
    ensures
        parse_opt_line(key, Seq::<char>::empty()) == (
            None::<Seq<char>>,
            Seq::<char>::empty(),
        ),
{
    assert(first_at(Seq::<char>::empty(), char_pred('\n')) == -1);
}

/// The serialized text from one field on: each suffix of the body, used to
/// walk the parse one line at a time.
spec fn tail_rev(f8: Option<Seq<char>>) -> Seq<char> {
    opt_line(("rebellions.ai/driver-version.revision="@), f8)
}

spec fn tail_patch(f7: Option<Seq<char>>, f8: Option<Seq<char>>) -> Seq<char> {
    opt_line(("rebellions.ai/driver-version.patch="@), f7) + tail_rev(f8)
}

spec fn tail_minor(f6: Option<Seq<char>>, f7: Option<Seq<char>>, f8: Option<Seq<char>>) -> Seq<char> {
    opt_line(("rebellions.ai/driver-version.minor="@), f6) + tail_patch(f7, f8)
}

spec fn tail_major(f5: Option<Seq<char>>, f6: Option<Seq<char>>, f7: Option<Seq<char>>, f8: Option<Seq<char>>) -> Seq<char> {
    opt_line(("rebellions.ai/driver-version.major="@), f5) + tail_minor(f6, f7, f8)
}

spec fn tail_full(f4: Option<Seq<char>>, f5: Option<Seq<char>>, f6: Option<Seq<char>>, f7: Option<Seq<char>>, f8: Option<Seq<char>>) -> Seq<char> {
    opt_line(("rebellions.ai/driver-version.full="@), f4) + tail_major(f5, f6, f7, f8)
}

spec fn tail_product(f3: Option<Seq<char>>, f4: Option<Seq<char>>, f5: Option<Seq<char>>, f6: Option<Seq<char>>, f7: Option<Seq<char>>, f8: Option<Seq<char>>) -> Seq<char> {
    opt_line(("rebellions.ai/npu.product="@), f3) + tail_full(f4, f5, f6, f7, f8)
}

spec fn tail_family(f2: Option<Seq<char>>, f3: Option<Seq<char>>, f4: Option<Seq<char>>, f5: Option<Seq<char>>, f6: Option<Seq<char>>, f7: Option<Seq<char>>, f8: Option<Seq<char>>) -> Seq<char> {
    opt_line(("rebellions.ai/npu.family="@), f2) + tail_product(f3, f4, f5, f6, f7, f8)
}

spec fn tail_count(c: Option<u8>, f2: Option<Seq<char>>, f3: Option<Seq<char>>, f4: Option<Seq<char>>, f5: Option<Seq<char>>, f6: Option<Seq<char>>, f7: Option<Seq<char>>, f8: Option<Seq<char>>) -> Seq<char> {
    opt_line(("rebellions.ai/npu.count="@), count_view(c)) + tail_family(f2, f3, f4, f5, f6, f7, f8)
}

/// A key that differs from every key of this suffix matches none of its
/// lines: the text is left alone.
proof fn lemma_rej_rev(ki: Seq<char>, d_rev: int, f8: Option<Seq<char>>)
    requires
        opt_no_newline(f8),
        0 <= d_rev < ki.len(),
        d_rev < ("rebellions.ai/driver-version.revision="@).len(),
        ki[d_rev] != ("rebellions.ai/driver-version.revision="@)[d_rev],
    ensures
        parse_opt_line(ki, tail_rev(f8)) == (None::<Seq<char>>, tail_rev(f8)),
{
    lemma_literals_no_newline();
    match f8 {
        Some(x) => {
            lemma_key_mismatch(ki, ("rebellions.ai/driver-version.revision="@), d_rev, x, Seq::<char>::empty());
            assert(tail_rev(f8) =~= ("rebellions.ai/driver-version.revision="@) + x + "\n"@ + Seq::<char>::empty());
        },
        None => {
            lemma_parse_opt_empty(ki);
            assert(tail_rev(f8) == Seq::<char>::empty());
        },
    }
}

/// A key that differs from every key of this suffix matches none of its
/// lines: the text is left alone.
proof fn lemma_rej_patch(ki: Seq<char>, d_patch: int, d_rev: int, f7: Option<Seq<char>>, f8: Option<Seq<char>>)
    requires
        opt_no_newline(f7),
        0 <= d_patch < ki.len(),
        d_patch < ("rebellions.ai/driver-version.patch="@).len(),
        ki[d_patch] != ("rebellions.ai/driver-version.patch="@)[d_patch],
        opt_no_newline(f8),
        0 <= d_rev < ki.len(),
        d_rev < ("rebellions.ai/driver-version.revision="@).len(),
        ki[d_rev] != ("rebellions.ai/driver-version.revision="@)[d_rev],
    ensures
        parse_opt_line(ki, tail_patch(f7, f8)) == (None::<Seq<char>>, tail_patch(f7, f8)),
{
    lemma_literals_no_newline();
    match f7 {
        Some(x) => {
            lemma_key_mismatch(ki, ("rebellions.ai/driver-version.patch="@), d_patch, x, tail_rev(f8));
        },
        None => {
            assert(Seq::<char>::empty() + tail_rev(f8) =~= tail_rev(f8));
            lemma_rej_rev(ki, d_rev, f8);
        },
    }
}

/// A key that differs from every key of this suffix matches none of its
/// lines: the text is left alone.
proof fn lemma_rej_minor(ki: Seq<char>, d_minor: int, d_patch: int, d_rev: int, f6: Option<Seq<char>>, f7: Option<Seq<char>>, f8: Option<Seq<char>>)
    requires
        opt_no_newline(f6),
        0 <= d_minor < ki.len(),
        d_minor < ("rebellions.ai/driver-version.minor="@).len(),
        ki[d_minor] != ("rebellions.ai/driver-version.minor="@)[d_minor],
        opt_no_newline(f7),
        0 <= d_patch < ki.len(),
        d_patch < ("rebellions.ai/driver-version.patch="@).len(),
        ki[d_patch] != ("rebellions.ai/driver-version.patch="@)[d_patch],
        opt_no_newline(f8),
        0 <= d_rev < ki.len(),
        d_rev < ("rebellions.ai/driver-version.revision="@).len(),
        ki[d_rev] != ("rebellions.ai/driver-version.revision="@)[d_rev],
    ensures
        parse_opt_line(ki, tail_minor(f6, f7, f8)) == (None::<Seq<char>>, tail_minor(f6, f7, f8)),
{
    lemma_literals_no_newline();
    match f6 {
        Some(x) => {
            lemma_key_mismatch(ki, ("rebellions.ai/driver-version.minor="@), d_minor, x, tail_patch(f7, f8));
        },
        None => {
            assert(Seq::<char>::empty() + tail_patch(f7, f8) =~= tail_patch(f7, f8));
            lemma_rej_patch(ki, d_patch, d_rev, f7, f8);
        },
    }
}

/// A key that differs from every key of this suffix matches none of its
/// lines: the text is left alone.
proof fn lemma_rej_major(ki: Seq<char>, d_major: int, d_minor: int, d_patch: int, d_rev: int, f5: Option<Seq<char>>, f6: Option<Seq<char>>, f7: Option<Seq<char>>, f8: Option<Seq<char>>)
    requires
        opt_no_newline(f5),
        0 <= d_major < ki.len(),
        d_major < ("rebellions.ai/driver-version.major="@).len(),
        ki[d_major] != ("rebellions.ai/driver-version.major="@)[d_major],
        opt_no_newline(f6),
        0 <= d_minor < ki.len(),
        d_minor < ("rebellions.ai/driver-version.minor="@).len(),
        ki[d_minor] != ("rebellions.ai/driver-version.minor="@)[d_minor],
        opt_no_newline(f7),
        0 <= d_patch < ki.len(),
        d_patch < ("rebellions.ai/driver-version.patch="@).len(),
        ki[d_patch] != ("rebellions.ai/driver-version.patch="@)[d_patch],
        opt_no_newline(f8),
        0 <= d_rev < ki.len(),
        d_rev < ("rebellions.ai/driver-version.revision="@).len(),
        ki[d_rev] != ("rebellions.ai/driver-version.revision="@)[d_rev],
    ensures
        parse_opt_line(ki, tail_major(f5, f6, f7, f8)) == (None::<Seq<char>>, tail_major(f5, f6, f7, f8)),
{
    lemma_literals_no_newline();
    match f5 {
        Some(x) => {
            lemma_key_mismatch(ki, ("rebellions.ai/driver-version.major="@), d_major, x, tail_minor(f6, f7, f8));
        },
        None => {
            assert(Seq::<char>::empty() + tail_minor(f6, f7, f8) =~= tail_minor(f6, f7, f8));
            lemma_rej_minor(ki, d_minor, d_patch, d_rev, f6, f7, f8);
        },
    }
}

/// A key that differs from every key of this suffix matches none of its
/// lines: the text is left alone.
proof fn lemma_rej_full(ki: Seq<char>, d_full: int, d_major: int, d_minor: int, d_patch: int, d_rev: int, f4: Option<Seq<char>>, f5: Option<Seq<char>>, f6: Option<Seq<char>>, f7: Option<Seq<char>>, f8: Option<Seq<char>>)
    requires
        opt_no_newline(f4),
        0 <= d_full < ki.len(),
        d_full < ("rebellions.ai/driver-version.full="@).len(),
        ki[d_full] != ("rebellions.ai/driver-version.full="@)[d_full],
        opt_no_newline(f5),
        0 <= d_major < ki.len(),
        d_major < ("rebellions.ai/driver-version.major="@).len(),
        ki[d_major] != ("rebellions.ai/driver-version.major="@)[d_major],
        opt_no_newline(f6),
        0 <= d_minor < ki.len(),
        d_minor < ("rebellions.ai/driver-version.minor="@).len(),
        ki[d_minor] != ("rebellions.ai/driver-version.minor="@)[d_minor],
        opt_no_newline(f7),
        0 <= d_patch < ki.len(),
        d_patch < ("rebellions.ai/driver-version.patch="@).len(),
        ki[d_patch] != ("rebellions.ai/driver-version.patch="@)[d_patch],
        opt_no_newline(f8),
        0 <= d_rev < ki.len(),
        d_rev < ("rebellions.ai/driver-version.revision="@).len(),
        ki[d_rev] != ("rebellions.ai/driver-version.revision="@)[d_rev],
    ensures
        parse_opt_line(ki, tail_full(f4, f5, f6, f7, f8)) == (None::<Seq<char>>, tail_full(f4, f5, f6, f7, f8)),
{
    lemma_literals_no_newline();
    match f4 {
        Some(x) => {
            lemma_key_mismatch(ki, ("rebellions.ai/driver-version.full="@), d_full, x, tail_major(f5, f6, f7, f8));
        },
        None => {
            assert(Seq::<char>::empty() + tail_major(f5, f6, f7, f8) =~= tail_major(f5, f6, f7, f8));
            lemma_rej_major(ki, d_major, d_minor, d_patch, d_rev, f5, f6, f7, f8);
        },
    }
}

/// A key that differs from every key of this suffix matches none of its
/// lines: the text is left alone.
proof fn lemma_rej_product(ki: Seq<char>, d_product: int, d_full: int, d_major: int, d_minor: int, d_patch: int, d_rev: int, f3: Option<Seq<char>>, f4: Option<Seq<char>>, f5: Option<Seq<char>>, f6: Option<Seq<char>>, f7: Option<Seq<char>>, f8: Option<Seq<char>>)
    requires
        opt_no_newline(f3),
        0 <= d_product < ki.len(),
        d_product < ("rebellions.ai/npu.product="@).len(),
        ki[d_product] != ("rebellions.ai/npu.product="@)[d_product],
        opt_no_newline(f4),
        0 <= d_full < ki.len(),
        d_full < ("rebellions.ai/driver-version.full="@).len(),
        ki[d_full] != ("rebellions.ai/driver-version.full="@)[d_full],
        opt_no_newline(f5),
        0 <= d_major < ki.len(),
        d_major < ("rebellions.ai/driver-version.major="@).len(),
        ki[d_major] != ("rebellions.ai/driver-version.major="@)[d_major],
        opt_no_newline(f6),
        0 <= d_minor < ki.len(),
        d_minor < ("rebellions.ai/driver-version.minor="@).len(),
        ki[d_minor] != ("rebellions.ai/driver-version.minor="@)[d_minor],
        opt_no_newline(f7),
        0 <= d_patch < ki.len(),
        d_patch < ("rebellions.ai/driver-version.patch="@).len(),
        ki[d_patch] != ("rebellions.ai/driver-version.patch="@)[d_patch],
        opt_no_newline(f8),
        0 <= d_rev < ki.len(),
        d_rev < ("rebellions.ai/driver-version.revision="@).len(),
        ki[d_rev] != ("rebellions.ai/driver-version.revision="@)[d_rev],
    ensures
        parse_opt_line(ki, tail_product(f3, f4, f5, f6, f7, f8)) == (None::<Seq<char>>, tail_product(f3, f4, f5, f6, f7, f8)),
{
    lemma_literals_no_newline();
    match f3 {
        Some(x) => {
            lemma_key_mismatch(ki, ("rebellions.ai/npu.product="@), d_product, x, tail_full(f4, f5, f6, f7, f8));
        },
        None => {
            assert(Seq::<char>::empty() + tail_full(f4, f5, f6, f7, f8) =~= tail_full(f4, f5, f6, f7, f8));
            lemma_rej_full(ki, d_full, d_major, d_minor, d_patch, d_rev, f4, f5, f6, f7, f8);
        },
    }
}

/// A key that differs from every key of this suffix matches none of its
/// lines: the text is left alone.
proof fn lemma_rej_family(ki: Seq<char>, d_family: int, d_product: int, d_full: int, d_major: int, d_minor: int, d_patch: int, d_rev: int, f2: Option<Seq<char>>, f3: Option<Seq<char>>, f4: Option<Seq<char>>, f5: Option<Seq<char>>, f6: Option<Seq<char>>, f7: Option<Seq<char>>, f8: Option<Seq<char>>)
    requires
        opt_no_newline(f2),
        0 <= d_family < ki.len(),
        d_family < ("rebellions.ai/npu.family="@).len(),
        ki[d_family] != ("rebellions.ai/npu.family="@)[d_family],
        opt_no_newline(f3),
        0 <= d_product < ki.len(),
        d_product < ("rebellions.ai/npu.product="@).len(),
        ki[d_product] != ("rebellions.ai/npu.product="@)[d_product],
        opt_no_newline(f4),
        0 <= d_full < ki.len(),
        d_full < ("rebellions.ai/driver-version.full="@).len(),
        ki[d_full] != ("rebellions.ai/driver-version.full="@)[d_full],
        opt_no_newline(f5),
        0 <= d_major < ki.len(),
        d_major < ("rebellions.ai/driver-version.major="@).len(),
        ki[d_major] != ("rebellions.ai/driver-version.major="@)[d_major],
        opt_no_newline(f6),
        0 <= d_minor < ki.len(),
        d_minor < ("rebellions.ai/driver-version.minor="@).len(),
        ki[d_minor] != ("rebellions.ai/driver-version.minor="@)[d_minor],
        opt_no_newline(f7),
        0 <= d_patch < ki.len(),
        d_patch < ("rebellions.ai/driver-version.patch="@).len(),
        ki[d_patch] != ("rebellions.ai/driver-version.patch="@)[d_patch],
        opt_no_newline(f8),
        0 <= d_rev < ki.len(),
        d_rev < ("rebellions.ai/driver-version.revision="@).len(),
        ki[d_rev] != ("rebellions.ai/driver-version.revision="@)[d_rev],
    ensures
        parse_opt_line(ki, tail_family(f2, f3, f4, f5, f6, f7, f8)) == (None::<Seq<char>>, tail_family(f2, f3, f4, f5, f6, f7, f8)),
{
    lemma_literals_no_newline();
    match f2 {
        Some(x) => {
            lemma_key_mismatch(ki, ("rebellions.ai/npu.family="@), d_family, x, tail_product(f3, f4, f5, f6, f7, f8));
        },
        None => {
            assert(Seq::<char>::empty() + tail_product(f3, f4, f5, f6, f7, f8) =~= tail_product(f3, f4, f5, f6, f7, f8));
            lemma_rej_product(ki, d_product, d_full, d_major, d_minor, d_patch, d_rev, f3, f4, f5, f6, f7, f8);
        },
    }
}

/// Parsing the suffix at its own key consumes exactly this field's line,
/// set or not, and leaves the next suffix.
proof fn lemma_step_rev(f8: Option<Seq<char>>)
    requires
        opt_no_newline(f8),
    ensures
        parse_opt_line(("rebellions.ai/driver-version.revision="@), tail_rev(f8)) == (f8, Seq::<char>::empty()),
{
    lemma_literals_no_newline();
    lemma_key_table_facts();
    match f8 {
        Some(x) => {
            lemma_parse_req(("rebellions.ai/driver-version.revision="@), x, Seq::<char>::empty());
            assert(tail_rev(f8) =~= ("rebellions.ai/driver-version.revision="@) + x + "\n"@ + Seq::<char>::empty());
        },
        None => {
            lemma_parse_opt_empty(("rebellions.ai/driver-version.revision="@));
            assert(tail_rev(f8) == Seq::<char>::empty());
        },
    }
}

/// Parsing the suffix at its own key consumes exactly this field's line,
/// set or not, and leaves the next suffix.
proof fn lemma_step_patch(f7: Option<Seq<char>>, f8: Option<Seq<char>>)
    requires
        opt_no_newline(f7),
        opt_no_newline(f8),
    ensures
        parse_opt_line(("rebellions.ai/driver-version.patch="@), tail_patch(f7, f8)) == (f7, tail_rev(f8)),
{
    lemma_literals_no_newline();
    lemma_key_table_facts();
    match f7 {
        Some(x) => {
            lemma_parse_req(("rebellions.ai/driver-version.patch="@), x, tail_rev(f8));
        },
        None => {
            assert(Seq::<char>::empty() + tail_rev(f8) =~= tail_rev(f8));
            lemma_rej_rev(("rebellions.ai/driver-version.patch="@), 29, f8);
        },
    }
}

/// Parsing the suffix at its own key consumes exactly this field's line,
/// set or not, and leaves the next suffix.
proof fn lemma_step_minor(f6: Option<Seq<char>>, f7: Option<Seq<char>>, f8: Option<Seq<char>>)
    requires
        opt_no_newline(f6),
        opt_no_newline(f7),
        opt_no_newline(f8),
    ensures
        parse_opt_line(("rebellions.ai/driver-version.minor="@), tail_minor(f6, f7, f8)) == (f6, tail_patch(f7, f8)),
{
    lemma_literals_no_newline();
    lemma_key_table_facts();
    match f6 {
        Some(x) => {
            lemma_parse_req(("rebellions.ai/driver-version.minor="@), x, tail_patch(f7, f8));
        },
        None => {
            assert(Seq::<char>::empty() + tail_patch(f7, f8) =~= tail_patch(f7, f8));
            lemma_rej_patch(("rebellions.ai/driver-version.minor="@), 29, 29, f7, f8);
        },
    }
}

/// Parsing the suffix at its own key consumes exactly this field's line,
/// set or not, and leaves the next suffix.
proof fn lemma_step_major(f5: Option<Seq<char>>, f6: Option<Seq<char>>, f7: Option<Seq<char>>, f8: Option<Seq<char>>)
    requires
        opt_no_newline(f5),
        opt_no_newline(f6),
        opt_no_newline(f7),
        opt_no_newline(f8),
    ensures
        parse_opt_line(("rebellions.ai/driver-version.major="@), tail_major(f5, f6, f7, f8)) == (f5, tail_minor(f6, f7, f8)),
{
    lemma_literals_no_newline();
    lemma_key_table_facts();
    match f5 {
        Some(x) => {
            lemma_parse_req(("rebellions.ai/driver-version.major="@), x, tail_minor(f6, f7, f8));
        },
        None => {
            assert(Seq::<char>::empty() + tail_minor(f6, f7, f8) =~= tail_minor(f6, f7, f8));
            lemma_rej_minor(("rebellions.ai/driver-version.major="@), 30, 29, 29, f6, f7, f8);
        },
    }
}

/// Parsing the suffix at its own key consumes exactly this field's line,
/// set or not, and leaves the next suffix.
proof fn lemma_step_full(f4: Option<Seq<char>>, f5: Option<Seq<char>>, f6: Option<Seq<char>>, f7: Option<Seq<char>>, f8: Option<Seq<char>>)
    requires
        opt_no_newline(f4),
        opt_no_newline(f5),
        opt_no_newline(f6),
        opt_no_newline(f7),
        opt_no_newline(f8),
    ensures
        parse_opt_line(("rebellions.ai/driver-version.full="@), tail_full(f4, f5, f6, f7, f8)) == (f4, tail_major(f5, f6, f7, f8)),
{
    lemma_literals_no_newline();
    lemma_key_table_facts();
    match f4 {
        Some(x) => {
            lemma_parse_req(("rebellions.ai/driver-version.full="@), x, tail_major(f5, f6, f7, f8));
        },
        None => {
            assert(Seq::<char>::empty() + tail_major(f5, f6, f7, f8) =~= tail_major(f5, f6, f7, f8));
            lemma_rej_major(("rebellions.ai/driver-version.full="@), 29, 29, 29, 29, f5, f6, f7, f8);
        },
    }
}

/// Parsing the suffix at its own key consumes exactly this field's line,
/// set or not, and leaves the next suffix.
proof fn lemma_step_product(f3: Option<Seq<char>>, f4: Option<Seq<char>>, f5: Option<Seq<char>>, f6: Option<Seq<char>>, f7: Option<Seq<char>>, f8: Option<Seq<char>>)
    requires
        opt_no_newline(f3),
        opt_no_newline(f4),
        opt_no_newline(f5),
        opt_no_newline(f6),
        opt_no_newline(f7),
        opt_no_newline(f8),
    ensures
        parse_opt_line(("rebellions.ai/npu.product="@), tail_product(f3, f4, f5, f6, f7, f8)) == (f3, tail_full(f4, f5, f6, f7, f8)),
{
    lemma_literals_no_newline();
    lemma_key_table_facts();
    match f3 {
        Some(x) => {
            lemma_parse_req(("rebellions.ai/npu.product="@), x, tail_full(f4, f5, f6, f7, f8));
        },
        None => {
            assert(Seq::<char>::empty() + tail_full(f4, f5, f6, f7, f8) =~= tail_full(f4, f5, f6, f7, f8));
            lemma_rej_full(("rebellions.ai/npu.product="@), 14, 14, 14, 14, 14, f4, f5, f6, f7, f8);
        },
    }
}

/// Parsing the suffix at its own key consumes exactly this field's line,
/// set or not, and leaves the next suffix.
proof fn lemma_step_family(f2: Option<Seq<char>>, f3: Option<Seq<char>>, f4: Option<Seq<char>>, f5: Option<Seq<char>>, f6: Option<Seq<char>>, f7: Option<Seq<char>>, f8: Option<Seq<char>>)
    requires
        opt_no_newline(f2),
        opt_no_newline(f3),
        opt_no_newline(f4),
        opt_no_newline(f5),
        opt_no_newline(f6),
        opt_no_newline(f7),
        opt_no_newline(f8),
    ensures
        parse_opt_line(("rebellions.ai/npu.family="@), tail_family(f2, f3, f4, f5, f6, f7, f8)) == (f2, tail_product(f3, f4, f5, f6, f7, f8)),
{
    lemma_literals_no_newline();
    lemma_key_table_facts();
    match f2 {
        Some(x) => {
            lemma_parse_req(("rebellions.ai/npu.family="@), x, tail_product(f3, f4, f5, f6, f7, f8));
        },
        None => {
            assert(Seq::<char>::empty() + tail_product(f3, f4, f5, f6, f7, f8) =~= tail_product(f3, f4, f5, f6, f7, f8));
            lemma_rej_product(("rebellions.ai/npu.family="@), 18, 14, 14, 14, 14, 14, f3, f4, f5, f6, f7, f8);
        },
    }
}

/// Parsing the suffix at its own key consumes exactly this field's line,
/// set or not, and leaves the next suffix.
proof fn lemma_step_count(c: Option<u8>, f2: Option<Seq<char>>, f3: Option<Seq<char>>, f4: Option<Seq<char>>, f5: Option<Seq<char>>, f6: Option<Seq<char>>, f7: Option<Seq<char>>, f8: Option<Seq<char>>)
    requires
        opt_no_newline(f2),
        opt_no_newline(f3),
        opt_no_newline(f4),
        opt_no_newline(f5),
        opt_no_newline(f6),
        opt_no_newline(f7),
        opt_no_newline(f8),
    ensures
        parse_opt_line(("rebellions.ai/npu.count="@), tail_count(c, f2, f3, f4, f5, f6, f7, f8)) == (count_view(c), tail_family(f2, f3, f4, f5, f6, f7, f8)),
{
    lemma_literals_no_newline();
    lemma_key_table_facts();
    match c {
        Some(n) => {
            lemma_dec_of_digits(n as int);
            lemma_parse_req(("rebellions.ai/npu.count="@), dec_of(n as int), tail_family(f2, f3, f4, f5, f6, f7, f8));
        },
        None => {
            assert(Seq::<char>::empty() + tail_family(f2, f3, f4, f5, f6, f7, f8) =~= tail_family(f2, f3, f4, f5, f6, f7, f8));
            lemma_rej_family(("rebellions.ai/npu.count="@), 18, 18, 14, 14, 14, 14, 14, f2, f3, f4, f5, f6, f7, f8);
        },
    }
}

/// Serialization loses nothing: a record parses back from its own text,
/// field for field, whichever fields are set, as long as no set value spans
/// lines.
#[verifier::rlimit(50)]
#[verifier::spinoff_prover]
pub proof fn lemma_plain_text_round_trip(v: FeatureView)
    requires
        opt_no_newline(v.npu_family),
        opt_no_newline(v.npu_product),
        opt_no_newline(v.driver_version_full),
        opt_no_newline(v.driver_version_major),
        opt_no_newline(v.driver_version_minor),
        opt_no_newline(v.driver_version_patch),
        opt_no_newline(v.driver_version_revision),
    ensures
        spec_parse(spec_plain_text(v)) == Some(v),
{
    lemma_literals_no_newline();
    lemma_key_table_facts();
    let kpr = "rebellions.ai/npu.present="@;
    let l1 = opt_line(("rebellions.ai/npu.count="@), count_view(v.npu_count));
    let l2 = opt_line(("rebellions.ai/npu.family="@), v.npu_family);
    let l3 = opt_line(("rebellions.ai/npu.product="@), v.npu_product);
    let l4 = opt_line(("rebellions.ai/driver-version.full="@), v.driver_version_full);
    let l5 = opt_line(("rebellions.ai/driver-version.major="@), v.driver_version_major);
    let l6 = opt_line(("rebellions.ai/driver-version.minor="@), v.driver_version_minor);
    let l7 = opt_line(("rebellions.ai/driver-version.patch="@), v.driver_version_patch);
    let l8 = opt_line(("rebellions.ai/driver-version.revision="@), v.driver_version_revision);
    let w8 = tail_rev(v.driver_version_revision);
    let w7 = tail_patch(v.driver_version_patch, v.driver_version_revision);
    let w6 = tail_minor(v.driver_version_minor, v.driver_version_patch, v.driver_version_revision);
    let w5 = tail_major(v.driver_version_major, v.driver_version_minor, v.driver_version_patch, v.driver_version_revision);
    let w4 = tail_full(v.driver_version_full, v.driver_version_major, v.driver_version_minor, v.driver_version_patch, v.driver_version_revision);
    let w3 = tail_product(v.npu_product, v.driver_version_full, v.driver_version_major, v.driver_version_minor, v.driver_version_patch, v.driver_version_revision);
    let w2 = tail_family(v.npu_family, v.npu_product, v.driver_version_full, v.driver_version_major, v.driver_version_minor, v.driver_version_patch, v.driver_version_revision);
    let w1 = tail_count(v.npu_count, v.npu_family, v.npu_product, v.driver_version_full, v.driver_version_major, v.driver_version_minor, v.driver_version_patch, v.driver_version_revision);
    assert(w8 == l8);
    assert(w7 == l7 + w8);
    assert(w6 == l6 + w7);
    assert(w5 == l5 + w6);
    assert(w4 == l4 + w5);
    assert(w3 == l3 + w4);
    assert(w2 == l2 + w3);
    assert(w1 == l1 + w2);
    let a = kpr + bool_text(v.npu_present) + "\n"@;
    let t = spec_plain_text(v);
    let t1 = a + l1;
    let t2 = t1 + l2;
    let t3 = t2 + l3;
    let t4 = t3 + l4;
    let t5 = t4 + l5;
    let t6 = t5 + l6;
    let t7 = t6 + l7;
    let t8 = t7 + l8;
    assert(t == t8);
    lemma_add_assoc(t6, l7, l8);
    assert(t8 == t6 + w7);
    lemma_add_assoc(t5, l6, w7);
    assert(t6 + w7 == t5 + w6);
    lemma_add_assoc(t4, l5, w6);
    assert(t5 + w6 == t4 + w5);
    lemma_add_assoc(t3, l4, w5);
    assert(t4 + w5 == t3 + w4);
    lemma_add_assoc(t2, l3, w4);
    assert(t3 + w4 == t2 + w3);
    lemma_add_assoc(t1, l2, w3);
    assert(t2 + w3 == t1 + w2);
    lemma_add_assoc(a, l1, w2);
    assert(t1 + w2 == a + w1);
    assert(t == a + w1);
    lemma_parse_req(kpr, bool_text(v.npu_present), w1);
    assert(parse_req_line(kpr, t) == Some((bool_text(v.npu_present), w1)));
    lemma_step_count(v.npu_count, v.npu_family, v.npu_product, v.driver_version_full, v.driver_version_major, v.driver_version_minor, v.driver_version_patch, v.driver_version_revision);
    lemma_step_family(v.npu_family, v.npu_product, v.driver_version_full, v.driver_version_major, v.driver_version_minor, v.driver_version_patch, v.driver_version_revision);
    lemma_step_product(v.npu_product, v.driver_version_full, v.driver_version_major, v.driver_version_minor, v.driver_version_patch, v.driver_version_revision);
    lemma_step_full(v.driver_version_full, v.driver_version_major, v.driver_version_minor, v.driver_version_patch, v.driver_version_revision);
    lemma_step_major(v.driver_version_major, v.driver_version_minor, v.driver_version_patch, v.driver_version_revision);
    lemma_step_minor(v.driver_version_minor, v.driver_version_patch, v.driver_version_revision);
    lemma_step_patch(v.driver_version_patch, v.driver_version_revision);
    lemma_step_rev(v.driver_version_revision);
    if v.npu_count is Some {
        let n = v.npu_count.unwrap();
        lemma_dec_of_digits(n as int);
        assert(u8_parse_ok(dec_of(n as int)));
        assert(dec_val(dec_of(n as int)) as u8 == n);
    }
    assert(spec_parse(t) == Some(v));
}

/// Two passes over unchanged state give the same text but for the expiry
/// annotation: under either timestamp, everything after the first line is
/// the serialization of the record alone, and without an annotation it is
/// that serialization itself.
pub proof fn lemma_idempotent_but_for_expiry(f: FeatureView, ts1: Seq<char>, ts2: Seq<char>)
    requires
        no_newline(ts1),
        no_newline(ts2),
    ensures
        line_split(spec_rendered(f, Some(ts1))) == Some((
            "# +expiry-time="@ + ts1,
            spec_plain_text(f),
        )),
        line_split(spec_rendered(f, Some(ts2))) == Some((
            "# +expiry-time="@ + ts2,
            spec_plain_text(f),
        )),
        spec_rendered(f, None) == spec_plain_text(f),
{
    lemma_literals_no_newline();
    let key = "# +expiry-time="@;
    assert forall|j: int| 0 <= j < (key + ts1).len() implies (key + ts1)[j] != '\n' by {
        if j < key.len() {
            assert((key + ts1)[j] == key[j]);
        } else {
            assert((key + ts1)[j] == ts1[j - key.len()]);
        }
    }
    assert forall|j: int| 0 <= j < (key + ts2).len() implies (key + ts2)[j] != '\n' by {
        if j < key.len() {
            assert((key + ts2)[j] == key[j]);
        } else {
            assert((key + ts2)[j] == ts2[j - key.len()]);
        }
    }
    lemma_line_split_of(key + ts1, spec_plain_text(f));
    lemma_line_split_of(key + ts2, spec_plain_text(f));
}

/// First line and remainder of `t`, as slices.
fn take_line<'a>(t: &'a str) -> (r: Option<(&'a str, &'a str)>)
    ensures
        match r {
            Some(p) => line_split(t@) == Some((p.0@, p.1@)),
            None => line_split(t@) is None,
        },
{
    match find_char(t, '\n') {
        None => None,
        Some(i) => {
            proof {
                lemma_first_at_bounds(t@, char_pred('\n'));
            }
            let len = t.unicode_len();
            let line = t.substring_char(0, i);
            let rest = t.substring_char(i + 1, len);
            proof {
                assert(t@.subrange(0, i as int) =~= t@.take(i as int));
                assert(t@.subrange(i + 1, len as int) =~= t@.skip(i + 1));
            }
            Some((line, rest))
        },
    }
}

/// One optional `key=value` line, as the parser consumes it.
fn parse_opt_field<'a>(t: &'a str, key: &str) -> (r: (Option<String>, &'a str))
    ensures
        parse_opt_line(key@, t@) == (opt_view(r.0), r.1@),
{
    match take_line(t) {
        None => (None, t),
        Some((line, rest)) => {
            if str_starts_with(line, key) {
                let kl = key.unicode_len();
                let ll = line.unicode_len();
                let v = line.substring_char(kl, ll);
                proof {
                    assert(line@.subrange(kl as int, ll as int) =~= line@.skip(kl as int));
                }
                (Some(v.to_owned()), rest)
            } else {
                (None, t)
            }
        },
    }
}

/// Reads a serialized body back into a record: the inverse of
/// `to_plain_text` on well-formed text, `None` on anything else.
pub fn from_plain_text(t: &str) -> (r: Option<RBLNFeatures>)
    ensures
        match r {
            Some(f) => spec_parse(t@) == Some(f@),
            None => spec_parse(t@) is None,
        },
{
    let (pv, t1) = match take_line(t) {
        None => {
            return None;
        },
        Some((line, rest)) => {
            if !str_starts_with(line, "rebellions.ai/npu.present=") {
                return None;
            }
            let kl = "rebellions.ai/npu.present=".unicode_len();
            let ll = line.unicode_len();
            let v = line.substring_char(kl, ll);
            proof {
                assert(line@.subrange(kl as int, ll as int) =~= line@.skip(kl as int));
            }
            (v, rest)
        },
    };
    let npu_present = if str_eq(pv, "true") {
        true
    } else if str_eq(pv, "false") {
        false
    } else {
        return None;
    };
    let (cv, t2) = parse_opt_field(t1, "rebellions.ai/npu.count=");
    let npu_count = match &cv {
        Some(s) => {
            match parse_u8(s.as_str()) {
                Some(n) => Some(n),
                None => {
                    return None;
                },
            }
        },
        None => None,
    };
    let (npu_family, t3) = parse_opt_field(t2, "rebellions.ai/npu.family=");
    let (npu_product, t4) = parse_opt_field(t3, "rebellions.ai/npu.product=");
    let (driver_version_full, t5) = parse_opt_field(t4, "rebellions.ai/driver-version.full=");
    let (driver_version_major, t6) = parse_opt_field(t5, "rebellions.ai/driver-version.major=");
    let (driver_version_minor, t7) = parse_opt_field(t6, "rebellions.ai/driver-version.minor=");
    let (driver_version_patch, t8) = parse_opt_field(t7, "rebellions.ai/driver-version.patch=");
    let (driver_version_revision, t9) = parse_opt_field(
        t8,
        "rebellions.ai/driver-version.revision=",
    );
    if !t9.is_empty() {
        return None;
    }
    Some(
        RBLNFeatures {
            npu_present,
            npu_count,
            npu_family,
            npu_product,
            driver_version_full,
            driver_version_major,
            driver_version_minor,
            driver_version_patch,
            driver_version_revision,
        },
    )
}

} // verus!
