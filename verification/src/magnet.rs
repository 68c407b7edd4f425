//! Magnet links: the fields `xt`, `tr`, `dn`, `xl` and `kt` of a link, found
//! by pattern and read one by one.

use vstd::prelude::*;
use crate::capture::{field_values, field_values_of};
use crate::error::{outcome, ParseError, ParseFault};
use crate::exact_topic::{exact_topic_of, ExactTopic, ExactTopicView};
use crate::pattern::{pattern_accepted, percent_decode, percent_decoded};
use crate::text::{
    all_digits, begins_with, decimal_from, decimal_value, digits_from, digits_of, holds,
    lemma_digits_spell_their_number, occurs, occurs_at, to_chars,
};
use crate::tracker::{tracker_of, Tracker, TrackerView};

verus! {

/// What every link begins with.
pub const HEADER: &'static str = "magnet:?";

/// The pattern of an exact topic: `xt=`, then `urn`, a technology token and
/// a hash, each of lower-case letters and digits, up to the next `&` or the
/// end. The value group is the topic.
pub const XT_PATTERN: &'static str = r"xt=(urn:[a-z0-9]+:[a-z0-9]+)(?:&|$)";

/// The pattern of a tracker: `tr=` and a value up to the next `&` or the end.
/// The value group is what comes behind the `=`.
pub const TR_PATTERN: &'static str = r"tr=(.+?)(?:&|$)";

/// The pattern of a display name: `dn=` and a value up to the next `&` or the
/// end. The value group is what comes behind the `=`.
pub const DN_PATTERN: &'static str = r"dn=(.+?)(?:&|$)";

/// The pattern of an exact length: `xl=` and a value up to the next `&` or
/// the end. The value group is what comes behind the `=`.
pub const XL_PATTERN: &'static str = r"xl=(.+?)(?:&|$)";

/// The pattern of a keyword topic: `kt=` and a value up to the next `&` or
/// the end. The value group is what comes behind the `=`.
pub const KT_PATTERN: &'static str = r"kt=(.+?)(?:&|$)";

/// What a magnet link holds.
#[derive(Debug, PartialEq, Eq)]
pub struct Magnet {
    link: String,
    xts: Vec<ExactTopic>,
    trs: Vec<Tracker>,
    dn: String,
    xl: u128,
    kts: Vec<String>,
    skipped: Vec<ParseError>,
}

/// A `Magnet` as plain values: the text it was read from, its exact topics
/// and trackers in the order in which they were met, its display name, its
/// exact length, its keyword topics in the order in which they were met, and
/// the errors of the entries that were left out.
pub ghost struct MagnetView {
    pub link: Seq<char>,
    pub xts: Seq<ExactTopicView>,
    pub trs: Seq<TrackerView>,
    pub dn: Seq<char>,
    pub xl: u128,
    pub kts: Seq<Seq<char>>,
    pub skipped: Seq<ParseFault>,
}

/// The views of `items`, one for one.
pub open spec fn views<T: View>(items: Seq<T>) -> Seq<T::V> {
    items.map_values(|item: T| item@)
}

impl View for Magnet {
    type V = MagnetView;

    closed spec fn view(&self) -> MagnetView {
        MagnetView {
            link: self.link@,
            xts: views(self.xts@),
            trs: views(self.trs@),
            dn: self.dn@,
            xl: self.xl,
            kts: self.kts.deep_view(),
            skipped: views(self.skipped@),
        }
    }
}

impl MagnetView {
    /// What holds of every magnet: each of its trackers is well formed.
    pub open spec fn wf(self) -> bool {
        forall|i: int| 0 <= i < self.trs.len() ==> (#[trigger] self.trs[i]).wf()
    }
}

/// The link `raw` begins with `magnet:?`.
pub open spec fn has_header(raw: Seq<char>) -> bool {
    occurs_at(HEADER@, raw, 0)
}

/// The values of the results that are `Ok`, in order.
pub open spec fn kept<T>(results: Seq<Result<T, ParseFault>>) -> Seq<T>
    decreases results.len(),
{
    if results.len() == 0 {
        Seq::empty()
    } else {
        let before = kept(results.drop_last());
        match results.last() {
            Ok(value) => before.push(value),
            Err(_) => before,
        }
    }
}

/// The errors of the results that are `Err`, in order.
pub open spec fn dropped<T>(results: Seq<Result<T, ParseFault>>) -> Seq<ParseFault>
    decreases results.len(),
{
    if results.len() == 0 {
        Seq::empty()
    } else {
        let before = dropped(results.drop_last());
        match results.last() {
            Ok(_) => before,
            Err(e) => before.push(e),
        }
    }
}

/// What each value of the field `xt` means as an exact topic.
pub open spec fn topic_results(values: Seq<Seq<char>>) -> Seq<Result<ExactTopicView, ParseFault>> {
    values.map_values(|value: Seq<char>| exact_topic_of(value))
}

/// What each value of the field `tr` means as a tracker, once it has been
/// percent-decoded.
pub open spec fn tracker_results(values: Seq<Seq<char>>) -> Seq<Result<TrackerView, ParseFault>> {
    values.map_values(|value: Seq<char>| tracker_of(percent_decoded(value)))
}

/// The display name that the values of the field `dn` give: the last of
/// them, percent-decoded; empty where there is none.
pub open spec fn display_name_of(values: Seq<Seq<char>>) -> Seq<char> {
    if values.len() == 0 {
        Seq::empty()
    } else {
        percent_decoded(values.last())
    }
}

/// The number that `text` spells as an unsigned 128-bit integer: one or more
/// digits, with or without a `+` before them, that spell at most 2^128 - 1.
pub open spec fn number_of(text: Seq<char>) -> Option<u128> {
    let digits = if text.len() > 0 && text[0] == '+' {
        text.skip(1)
    } else {
        text
    };
    if digits.len() > 0 && all_digits(digits) && decimal_value(digits) <= u128::MAX {
        Some(decimal_value(digits) as u128)
    } else {
        None
    }
}

/// The exact length that the values of the field `xl` give: 0 where there is
/// none, the number that the first of them spells where it spells one, and
/// `None` where it does not.
pub open spec fn length_of(values: Seq<Seq<char>>) -> Option<u128> {
    if values.len() == 0 {
        Some(0u128)
    } else {
        number_of(values.first())
    }
}

/// What a link means, given the values that the five field patterns found in
/// it. Only a length that is no number makes the link fail; an exact topic or
/// a tracker that cannot be read is left out and its error is kept.
pub open spec fn magnet_of_values(
    raw: Seq<char>,
    xt: Seq<Seq<char>>,
    tr: Seq<Seq<char>>,
    dn: Seq<Seq<char>>,
    xl: Seq<Seq<char>>,
    kt: Seq<Seq<char>>,
) -> Result<MagnetView, ParseFault> {
    match length_of(xl) {
        None => Err(ParseFault::InvalidLength),
        Some(length) => Ok(
            MagnetView {
                link: raw,
                xts: kept(topic_results(xt)),
                trs: kept(tracker_results(tr)),
                dn: display_name_of(dn),
                xl: length,
                kts: kt,
                skipped: dropped(topic_results(xt)) + dropped(tracker_results(tr)),
            },
        ),
    }
}

/// The pattern engine accepts the five field patterns.
pub open spec fn patterns_accepted() -> bool {
    &&& pattern_accepted(XT_PATTERN@)
    &&& pattern_accepted(TR_PATTERN@)
    &&& pattern_accepted(DN_PATTERN@)
    &&& pattern_accepted(XL_PATTERN@)
    &&& pattern_accepted(KT_PATTERN@)
}

/// What the link `raw` means. A link without the header is rejected before
/// anything else is looked at.
pub open spec fn magnet_of(raw: Seq<char>) -> Result<MagnetView, ParseFault> {
    if !has_header(raw) {
        Err(ParseFault::MissingHeader)
    } else if !patterns_accepted() {
        Err(ParseFault::InvalidPattern)
    } else {
        magnet_of_values(
            raw,
            field_values_of(XT_PATTERN@, raw),
            field_values_of(TR_PATTERN@, raw),
            field_values_of(DN_PATTERN@, raw),
            field_values_of(XL_PATTERN@, raw),
            field_values_of(KT_PATTERN@, raw),
        )
    }
}

/// Reads each value of the field `xt` as an exact topic. Gives the topics
/// that could be read and the errors of those that could not, each in the
/// order of the values.
pub fn topics(values: &Vec<String>) -> (r: (Vec<ExactTopic>, Vec<ParseError>))
    ensures
        views(r.0@) == kept(topic_results(values.deep_view())),
        views(r.1@) == dropped(topic_results(values.deep_view())),
{
    let mut read: Vec<ExactTopic> = Vec::new();
    let mut faults: Vec<ParseError> = Vec::new();
    let ghost results = topic_results(values.deep_view());
    let mut i: usize = 0;
    while i < values.len()
        invariant
            i <= values.len(),
            results == topic_results(values.deep_view()),
            views(read@) == kept(results.take(i as int)),
            views(faults@) == dropped(results.take(i as int)),
        decreases values.len() - i,
    {
        assert(results.take(i + 1).drop_last() =~= results.take(i as int));
        match ExactTopic::from_string(values[i].as_str()) {
            Ok(topic) => read.push(topic),
            Err(e) => faults.push(e),
        }
        i += 1;
    }
    assert(results.take(i as int) =~= results);
    (read, faults)
}

/// Percent-decodes each value of the field `tr` and reads it as a tracker.
/// Gives the trackers that could be read and the errors of those that could
/// not, each in the order of the values.
pub fn trackers(values: &Vec<String>) -> (r: (Vec<Tracker>, Vec<ParseError>))
    ensures
        views(r.0@) == kept(tracker_results(values.deep_view())),
        views(r.1@) == dropped(tracker_results(values.deep_view())),
        forall|k: int| 0 <= k < r.0@.len() ==> (#[trigger] r.0@[k])@.wf(),
{
    let mut read: Vec<Tracker> = Vec::new();
    let mut faults: Vec<ParseError> = Vec::new();
    let ghost results = tracker_results(values.deep_view());
    let mut i: usize = 0;
    while i < values.len()
        invariant
            i <= values.len(),
            results == tracker_results(values.deep_view()),
            views(read@) == kept(results.take(i as int)),
            views(faults@) == dropped(results.take(i as int)),
            forall|k: int| 0 <= k < read@.len() ==> (#[trigger] read@[k])@.wf(),
        decreases values.len() - i,
    {
        assert(results.take(i + 1).drop_last() =~= results.take(i as int));
        let address = percent_decode(values[i].as_str());
        match Tracker::from_string(address.as_str()) {
            Ok(tracker) => read.push(tracker),
            Err(e) => faults.push(e),
        }
        i += 1;
    }
    assert(results.take(i as int) =~= results);
    (read, faults)
}

/// The display name that the values of the field `dn` give.
pub fn display_name(values: &Vec<String>) -> (r: String)
    ensures
        r@ == display_name_of(values.deep_view()),
{
    if values.len() == 0 {
        String::new()
    } else {
        percent_decode(values[values.len() - 1].as_str())
    }
}

/// Reads `text` as an unsigned 128-bit integer.
pub fn number(text: &str) -> (r: Option<u128>)
    ensures
        r == number_of(text@),
{
    let chars = to_chars(text);
    let from: usize = if chars.len() > 0 && chars[0] == '+' {
        1
    } else {
        0
    };
    assert(chars@.skip(0) =~= chars@);
    if from == chars.len() || !digits_from(&chars, from) {
        return None;
    }
    decimal_from(&chars, from, u128::MAX)
}

/// The exact length that the values of the field `xl` give.
pub fn length(values: &Vec<String>) -> (r: Option<u128>)
    ensures
        r == length_of(values.deep_view()),
{
    if values.len() == 0 {
        Some(0)
    } else {
        number(values[0].as_str())
    }
}

impl Magnet {
    /// Every tracker of a magnet is well formed.
    #[verifier::type_invariant]
    spec fn trackers_wf(self) -> bool {
        forall|i: int| 0 <= i < self.trs@.len() ==> (#[trigger] self.trs@[i])@.wf()
    }

    /// A magnet that holds nothing.
    pub fn new() -> (r: Magnet)
        ensures
            r@ == (MagnetView {
                link: Seq::empty(),
                xts: Seq::empty(),
                trs: Seq::empty(),
                dn: Seq::empty(),
                xl: 0,
                kts: Seq::empty(),
                skipped: Seq::empty(),
            }),
            r@.wf(),
    {
        let r = Magnet {
            link: String::new(),
            xts: Vec::new(),
            trs: Vec::new(),
            dn: String::new(),
            xl: 0,
            kts: Vec::new(),
            skipped: Vec::new(),
        };
        assert(views(r.xts@) =~= Seq::empty());
        assert(views(r.trs@) =~= Seq::empty());
        assert(views(r.skipped@) =~= Seq::empty());
        assert(r.kts.deep_view() =~= Seq::empty());
        r
    }

    /// Builds the magnet of the link `link` from the values that the five
    /// field patterns found in it. The header is not looked at.
    pub fn from_values(
        link: String,
        xt: &Vec<String>,
        tr: &Vec<String>,
        dn: &Vec<String>,
        xl: &Vec<String>,
        kt: Vec<String>,
    ) -> (r: Result<Magnet, ParseError>)
        ensures
            outcome(r) == magnet_of_values(
                link@,
                xt.deep_view(),
                tr.deep_view(),
                dn.deep_view(),
                xl.deep_view(),
                kt.deep_view(),
            ),
            r matches Ok(magnet) ==> magnet@.wf(),
    {
        let xl = match length(xl) {
            None => { return Err(ParseError::InvalidLength); },
            Some(number) => number,
        };
        let (xts, mut skipped) = topics(xt);
        let (trs, mut unread) = trackers(tr);
        let dn = display_name(dn);
        let ghost topic_faults = views(skipped@);
        let ghost tracker_faults = views(unread@);
        skipped.append(&mut unread);
        assert(views(skipped@) =~= topic_faults + tracker_faults);
        let magnet = Magnet { link, xts, trs, dn, xl, kts: kt, skipped };
        assert forall|i: int| 0 <= i < magnet@.trs.len() implies (#[trigger] magnet@.trs[i]).wf(
        ) by {
            assert(magnet@.trs[i] == magnet.trs@[i]@);
        }
        Ok(magnet)
    }

    /// Reads a magnet link.
    ///
    /// The link must begin with `magnet:?`. Every `xt` field is read as an
    /// exact topic and every `tr` field, percent-decoded, as a tracker; one
    /// that cannot be read is left out, and its error is kept among the
    /// skipped. The display name is the last `dn` field, percent-decoded; the
    /// exact length is the first `xl` field, which must be a number; the
    /// keyword topics are the `kt` fields as they stand.
    pub fn from_string(magnet_link: String) -> (r: Result<Magnet, ParseError>)
        ensures
            outcome(r) == magnet_of(magnet_link@),
            r matches Ok(magnet) ==> magnet@.wf(),
    {
        if !begins_with(magnet_link.as_str(), HEADER) {
            return Err(ParseError::MissingHeader);
        }
        let xt = field_values(XT_PATTERN, magnet_link.as_str());
        let tr = field_values(TR_PATTERN, magnet_link.as_str());
        let dn = field_values(DN_PATTERN, magnet_link.as_str());
        let xl = field_values(XL_PATTERN, magnet_link.as_str());
        let kt = field_values(KT_PATTERN, magnet_link.as_str());
        match (xt, tr, dn, xl, kt) {
            (Ok(xt), Ok(tr), Ok(dn), Ok(xl), Ok(kt)) => Magnet::from_values(
                magnet_link,
                &xt,
                &tr,
                &dn,
                &xl,
                kt,
            ),
            _ => Err(ParseError::InvalidPattern),
        }
    }

    /// The exact topics, in the order in which the link gives them.
    pub fn get_xt(&self) -> (r: &Vec<ExactTopic>)
        ensures
            views(r@) == self@.xts,
    {
        &self.xts
    }

    /// The trackers, in the order in which the link gives them. Each is
    /// well formed.
    pub fn get_tr(&self) -> (r: &Vec<Tracker>)
        ensures
            views(r@) == self@.trs,
            self@.wf(),
    {
        proof {
            use_type_invariant(self);
        }
        &self.trs
    }

    /// The display name; empty where the link gives none.
    pub fn get_dn(&self) -> (r: &str)
        ensures
            r@ == self@.dn,
    {
        self.dn.as_str()
    }

    /// The exact length; 0 where the link gives none.
    pub fn get_xl(&self) -> (r: u128)
        ensures
            r == self@.xl,
    {
        self.xl
    }

    /// The keyword topics, in the order in which the link gives them.
    pub fn get_kt(&self) -> (r: &Vec<String>)
        ensures
            r.deep_view() == self@.kts,
    {
        &self.kts
    }

    /// The errors of the exact topics and of the trackers that were left
    /// out: first those of the topics, then those of the trackers, each in
    /// the order in which the link gives them.
    pub fn get_skipped(&self) -> (r: &Vec<ParseError>)
        ensures
            views(r@) == self@.skipped,
    {
        &self.skipped
    }

    /// The header `magnet:?` where the text that the magnet was read from
    /// holds it, the empty text where it does not.
    pub fn get_header(&self) -> (r: String)
        ensures
            r@ == (if occurs(HEADER@, self@.link) {
                HEADER@
            } else {
                Seq::empty()
            }),
    {
        if holds(self.link.as_str(), HEADER) {
            HEADER.to_owned()
        } else {
            String::new()
        }
    }
}

/// The results that are kept from two runs in a row are those kept from the
/// first, followed by those kept from the second: nothing changes place and
/// nothing is merged.
pub proof fn lemma_kept_in_order<T>(
    first: Seq<Result<T, ParseFault>>,
    second: Seq<Result<T, ParseFault>>,
)
    ensures
        kept(first + second) == kept(first) + kept(second),
    decreases second.len(),
{
    if second.len() > 0 {
        lemma_kept_in_order(first, second.drop_last());
        assert((first + second).drop_last() =~= first + second.drop_last());
    }
}

/// Two values of the field `tr` that both read as trackers are both kept,
/// the first before the second, also where the two are equal.
pub proof fn lemma_two_trackers_both_kept(first: Seq<char>, second: Seq<char>)
    requires
        tracker_of(percent_decoded(first)) is Ok,
        tracker_of(percent_decoded(second)) is Ok,
    ensures
        kept(tracker_results(seq![first, second])) == seq![
            tracker_of(percent_decoded(first))->Ok_0,
            tracker_of(percent_decoded(second))->Ok_0,
        ],
{
    let one = tracker_of(percent_decoded(first));
    let two = tracker_of(percent_decoded(second));
    assert(tracker_results(seq![first, second]) =~= seq![one] + seq![two]);
    lemma_kept_in_order(seq![one], seq![two]);
    reveal_with_fuel(kept, 2);
}

/// Of several values of the field `dn` the last alone gives the display
/// name.
pub proof fn lemma_last_display_name_wins(earlier: Seq<Seq<char>>, last: Seq<char>)
    ensures
        display_name_of(earlier.push(last)) == percent_decoded(last),
{
}

/// A number written in base ten reads back as itself.
pub proof fn lemma_written_number_reads_back(n: u128)
    ensures
        number_of(digits_of(n as nat)) == Some(n),
{
    lemma_digits_spell_their_number(n as nat);
}

/// A link that does not begin with `magnet:?` is rejected for its missing
/// header, whatever else it holds.
pub proof fn lemma_missing_header_rejected(raw: Seq<char>)
    requires
        !has_header(raw),
    ensures
        magnet_of(raw) == Err::<MagnetView, ParseFault>(ParseFault::MissingHeader),
{
}

/// A magnet that was read holds the very text it was read from, and that
/// text holds the header.
pub proof fn lemma_read_magnet_holds_header(raw: Seq<char>)
    ensures
        magnet_of(raw) matches Ok(magnet) ==> magnet.link == raw && occurs(HEADER@, magnet.link),
{
    if magnet_of(raw) is Ok {
        assert(occurs_at(HEADER@, raw, 0));
    }
}

/// Reading the same link twice gives the same outcome: the same error, or
/// magnets that are equal field by field.
pub proof fn lemma_reading_is_repeatable(
    raw: Seq<char>,
    first: Result<Magnet, ParseError>,
    second: Result<Magnet, ParseError>,
)
    requires
        outcome(first) == magnet_of(raw),
        outcome(second) == magnet_of(raw),
    ensures
        outcome(first) == outcome(second),
{
}

} // verus!
