//! Decoding of the tags attached to a chat line into a structured message.

use vstd::prelude::*;
use crate::error::BotError;
use crate::error::BotErrorView;
use crate::text::lemma_pairs_round_trip;
use crate::text::list_text;
use crate::text::well_formed_pair;
use crate::text::index_of;
use crate::text::lemma_index_of_is_first;
use crate::text::lemma_index_of_unique;
use crate::text::pair_views;
use crate::text::pairs_of;
use crate::text::parse_u16;
use crate::text::parse_u32;
use crate::text::parse_unsigned;
use crate::text::split_pairs;
use crate::text::str_equal;

verus! {

/// A key and its optional value, as attached to a protocol line.
#[derive(Debug)]
pub struct Tag(pub String, pub Option<String>);

/// A tag as characters.
pub type TagView = (Seq<char>, Option<Seq<char>>);

impl View for Tag {
    type V = TagView;

    open spec fn view(&self) -> TagView {
        (
            self.0@,
            match self.1 {
                Some(v) => Some(v@),
                None => None,
            },
        )
    }
}

/// The views of a list of tags.
pub open spec fn tags_view(tags: Seq<Tag>) -> Seq<TagView> {
    tags.map_values(|t: Tag| t@)
}

/// The keys of a list of tags, in the order of the list.
pub open spec fn tag_keys(tags: Seq<TagView>) -> Seq<Seq<char>> {
    tags.map_values(|t: TagView| t.0)
}

/// True where some tag of the list has the key `name`.
pub open spec fn has_tag(tags: Seq<TagView>, name: Seq<char>) -> bool {
    exists|i: int| 0 <= i < tags.len() && (#[trigger] tags[i]).0 == name
}

/// The value of the first tag named `name`: the empty text where that tag
/// carries no value, `None` where no tag has the name.
pub open spec fn tag_value(tags: Seq<TagView>, name: Seq<char>) -> Option<Seq<char>> {
    let i = index_of(tag_keys(tags), name);
    if 0 <= i < tags.len() {
        Some(
            match tags[i].1 {
                Some(v) => v,
                None => Seq::empty(),
            },
        )
    } else {
        None
    }
}

/// A tag has a value exactly where the list holds its key, whatever
/// stands beside the key.
pub proof fn lemma_tag_value_iff_present(tags: Seq<TagView>, name: Seq<char>)
    ensures
        tag_value(tags, name) is Some <==> has_tag(tags, name),
{
    lemma_index_of_is_first(tag_keys(tags), name);
    if has_tag(tags, name) {
        let i = choose|i: int| 0 <= i < tags.len() && (#[trigger] tags[i]).0 == name;
        assert(tag_keys(tags)[i] == name);
    } else if tag_value(tags, name) is Some {
        let i = index_of(tag_keys(tags), name);
        assert(tags[i].0 == name);
    }
}

/// A decoded chat message.
#[derive(Debug)]
pub struct TwitchMessage {
    pub id: String,
    pub user_id: String,
    pub moderator: bool,
    pub subscriber: bool,
    pub vip: bool,
    pub color: String,
    pub display_name: Option<String>,
    pub bits: u32,
    pub badges: Vec<(String, u32)>,
    pub sub_months: u16,
    pub text: String,
}

/// A decoded chat message as characters and numbers.
pub struct MessageView {
    pub id: Seq<char>,
    pub user_id: Seq<char>,
    pub moderator: bool,
    pub subscriber: bool,
    pub vip: bool,
    pub color: Seq<char>,
    pub display_name: Option<Seq<char>>,
    pub bits: nat,
    pub badges: Seq<(Seq<char>, nat)>,
    pub sub_months: nat,
    pub text: Seq<char>,
}

/// The views of a list of badges.
pub open spec fn badge_views(badges: Seq<(String, u32)>) -> Seq<(Seq<char>, nat)> {
    badges.map_values(|b: (String, u32)| (b.0@, b.1 as nat))
}

impl View for TwitchMessage {
    type V = MessageView;

    open spec fn view(&self) -> MessageView {
        MessageView {
            id: self.id@,
            user_id: self.user_id@,
            moderator: self.moderator,
            subscriber: self.subscriber,
            vip: self.vip,
            color: self.color@,
            display_name: match self.display_name {
                Some(n) => Some(n@),
                None => None,
            },
            bits: self.bits as nat,
            badges: badge_views(self.badges@),
            sub_months: self.sub_months as nat,
            text: self.text@,
        }
    }
}

/// The first required tag, in the order `id`, `user-id`, `mod`,
/// `subscriber`, `color`, `badge-info`, `badges`, that the list lacks.
pub open spec fn missing_field(tags: Seq<TagView>) -> Option<Seq<char>> {
    if tag_value(tags, "id"@) is None {
        Some("id"@)
    } else if tag_value(tags, "user-id"@) is None {
        Some("user-id"@)
    } else if tag_value(tags, "mod"@) is None {
        Some("mod"@)
    } else if tag_value(tags, "subscriber"@) is None {
        Some("subscriber"@)
    } else if tag_value(tags, "color"@) is None {
        Some("color"@)
    } else if tag_value(tags, "badge-info"@) is None {
        Some("badge-info"@)
    } else if tag_value(tags, "badges"@) is None {
        Some("badges"@)
    } else {
        None
    }
}

/// The bits that a tag list announces: 0 without a `bits` tag, else the
/// number in it, `None` where that is no number of 32 bits.
pub open spec fn bits_of(tags: Seq<TagView>) -> Option<nat> {
    match tag_value(tags, "bits"@) {
        Some(v) => parse_unsigned(v, u32::MAX as nat),
        None => Some(0),
    }
}

/// True where the value of every pair is a number of 32 bits.
pub open spec fn all_values_numeric(pairs: Seq<(Seq<char>, Seq<char>)>) -> bool {
    forall|i: int|
        0 <= i < pairs.len() ==> (#[trigger] parse_unsigned(pairs[i].1, u32::MAX as nat)) is Some
}

/// The badges that a list of pairs denotes, in the same order, each value
/// read as a number; `None` where one of the values is no number.
pub open spec fn badge_values(pairs: Seq<(Seq<char>, Seq<char>)>) -> Option<Seq<(Seq<char>, nat)>> {
    if all_values_numeric(pairs) {
        Some(
            pairs.map_values(
                |p: (Seq<char>, Seq<char>)| (p.0, parse_unsigned(p.1, u32::MAX as nat)->0),
            ),
        )
    } else {
        None
    }
}

/// The names of a list of pairs, in the order of the list.
pub open spec fn pair_names(pairs: Seq<(Seq<char>, Seq<char>)>) -> Seq<Seq<char>> {
    pairs.map_values(|p: (Seq<char>, Seq<char>)| p.0)
}

/// The value of the first pair named `subscriber`.
pub open spec fn subscriber_entry(pairs: Seq<(Seq<char>, Seq<char>)>) -> Option<Seq<char>> {
    let i = index_of(pair_names(pairs), "subscriber"@);
    if 0 <= i < pairs.len() {
        Some(pairs[i].1)
    } else {
        None
    }
}

/// The months of subscription that a list of pairs announces: 0 without
/// a pair named `subscriber`, else the number in the first such pair,
/// `None` where that is no number of 16 bits.
pub open spec fn sub_months_of(pairs: Seq<(Seq<char>, Seq<char>)>) -> Option<nat> {
    match subscriber_entry(pairs) {
        Some(v) => parse_unsigned(v, u16::MAX as nat),
        None => Some(0),
    }
}

/// What decoding a chat line with body `text` and tags `tags` gives.
///
/// A line that lacks a required tag fails with `MissingField` for the
/// first one it lacks. Otherwise the numbers are read, `bits` first, then
/// the values of `badges`, then the subscriber entry of `badge-info`, and
/// the first that cannot be read fails the decode with `InvalidNumber`
/// for its tag. Otherwise every field of the message is as stated here.
pub open spec fn decode_spec(text: Seq<char>, tags: Seq<TagView>) -> Result<
    MessageView,
    BotErrorView,
> {
    match missing_field(tags) {
        Some(name) => Err(BotErrorView::MissingField(name)),
        None => {
            let bits = bits_of(tags);
            let badges = badge_values(pairs_of(tag_value(tags, "badges"@)->0));
            let months = sub_months_of(pairs_of(tag_value(tags, "badge-info"@)->0));
            if bits is None {
                Err(BotErrorView::InvalidNumber("bits"@))
            } else if badges is None {
                Err(BotErrorView::InvalidNumber("badges"@))
            } else if months is None {
                Err(BotErrorView::InvalidNumber("badge-info"@))
            } else {
                Ok(
                    MessageView {
                        id: tag_value(tags, "id"@)->0,
                        user_id: tag_value(tags, "user-id"@)->0,
                        moderator: tag_value(tags, "mod"@)->0 == "1"@,
                        subscriber: tag_value(tags, "subscriber"@)->0 == "1"@,
                        vip: tag_value(tags, "vip"@) is Some,
                        color: tag_value(tags, "color"@)->0,
                        display_name: tag_value(tags, "display-name"@),
                        bits: bits->0,
                        badges: badges->0,
                        sub_months: months->0,
                        text: text,
                    },
                )
            }
        },
    }
}

/// True of the names of the tags that every chat line must carry.
pub open spec fn is_required(name: Seq<char>) -> bool {
    name == "id"@ || name == "user-id"@ || name == "mod"@ || name == "subscriber"@ || name
        == "color"@ || name == "badge-info"@ || name == "badges"@
}

/// A tag list that lacks a required tag does not decode, whatever else it
/// holds: the failure is `MissingField`, and the tag it names is a
/// required one that the list lacks. Where the list lacks only one, that
/// one is named.
pub proof fn lemma_missing_required_tag_fails(
    text: Seq<char>,
    tags: Seq<TagView>,
    name: Seq<char>,
)
    requires
        is_required(name),
        !has_tag(tags, name),
    ensures
        missing_field(tags) is Some,
        decode_spec(text, tags) == Err::<MessageView, BotErrorView>(
            BotErrorView::MissingField(missing_field(tags)->0),
        ),
        is_required(missing_field(tags)->0),
        !has_tag(tags, missing_field(tags)->0),
        (forall|other: Seq<char>| is_required(other) && other != name ==> has_tag(tags, other))
            ==> missing_field(tags)->0 == name,
{
    lemma_tag_value_iff_present(tags, "id"@);
    lemma_tag_value_iff_present(tags, "user-id"@);
    lemma_tag_value_iff_present(tags, "mod"@);
    lemma_tag_value_iff_present(tags, "subscriber"@);
    lemma_tag_value_iff_present(tags, "color"@);
    lemma_tag_value_iff_present(tags, "badge-info"@);
    lemma_tag_value_iff_present(tags, "badges"@);
    let named = missing_field(tags)->0;
    if named != name && (forall|other: Seq<char>|
        is_required(other) && other != name ==> has_tag(tags, other)) {
        assert(is_required(named) && named != name);
        assert(has_tag(tags, named));
    }
}

/// A tag list that holds every required tag never fails with
/// `MissingField`.
pub proof fn lemma_complete_tags_have_no_missing_field(tags: Seq<TagView>)
    requires
        forall|name: Seq<char>| is_required(name) ==> has_tag(tags, name),
    ensures
        missing_field(tags) is None,
{
    assert(is_required("id"@));
    assert(is_required("user-id"@));
    assert(is_required("mod"@));
    assert(is_required("subscriber"@));
    assert(is_required("color"@));
    assert(is_required("badge-info"@));
    assert(is_required("badges"@));
    lemma_tag_value_iff_present(tags, "id"@);
    lemma_tag_value_iff_present(tags, "user-id"@);
    lemma_tag_value_iff_present(tags, "mod"@);
    lemma_tag_value_iff_present(tags, "subscriber"@);
    lemma_tag_value_iff_present(tags, "color"@);
    lemma_tag_value_iff_present(tags, "badge-info"@);
    lemma_tag_value_iff_present(tags, "badges"@);
}

/// In every message that decodes, `vip` is true exactly where the tag
/// list holds the key `vip`, with any value or with none.
pub proof fn lemma_vip_iff_tag_present(text: Seq<char>, tags: Seq<TagView>)
    requires
        decode_spec(text, tags) is Ok,
    ensures
        decode_spec(text, tags)->Ok_0.vip <==> has_tag(tags, "vip"@),
{
    lemma_tag_value_iff_present(tags, "vip"@);
}

/// The badges read from a list written from well-formed pairs: where
/// every value is a number they are the pairs themselves, as many and in
/// the same order, each with its name and the number that its value
/// denotes; where one value is no number there are none, and the decode
/// fails.
pub proof fn lemma_badges_of_written_list(pairs: Seq<(Seq<char>, Seq<char>)>)
    requires
        forall|i: int| 0 <= i < pairs.len() ==> well_formed_pair(#[trigger] pairs[i]),
    ensures
        badge_values(pairs_of(list_text(pairs))) is Some <==> all_values_numeric(pairs),
        all_values_numeric(pairs) ==> {
            let badges = badge_values(pairs_of(list_text(pairs)))->0;
            &&& badges.len() == pairs.len()
            &&& forall|i: int|
                0 <= i < pairs.len() ==> (#[trigger] badges[i]).0 == pairs[i].0
                    && parse_unsigned(pairs[i].1, u32::MAX as nat) == Some(badges[i].1)
        },
{
    lemma_pairs_round_trip(pairs);
}

/// A complete tag list whose `badges` hold a value that is no number
/// does not decode: the failure is `InvalidNumber`.
pub proof fn lemma_bad_badge_value_fails(text: Seq<char>, tags: Seq<TagView>)
    requires
        missing_field(tags) is None,
        !all_values_numeric(pairs_of(tag_value(tags, "badges"@)->0)),
    ensures
        decode_spec(text, tags) is Err,
        decode_spec(text, tags)->Err_0 is InvalidNumber,
{
}

/// In every message that decodes, `sub_months` is 0 where `badge-info`
/// has no entry named `subscriber`, and else the number that the first
/// such entry holds.
pub proof fn lemma_sub_months_is_subscriber_entry(text: Seq<char>, tags: Seq<TagView>)
    requires
        decode_spec(text, tags) is Ok,
    ensures
        ({
            let info = pairs_of(tag_value(tags, "badge-info"@)->0);
            let months = decode_spec(text, tags)->Ok_0.sub_months;
            &&& (forall|k: int| 0 <= k < info.len() ==> (#[trigger] info[k]).0 != "subscriber"@)
                ==> months == 0
            &&& forall|i: int|
                0 <= i < info.len() && (#[trigger] info[i]).0 == "subscriber"@ && (forall|k: int|
                    0 <= k < i ==> (#[trigger] info[k]).0 != "subscriber"@) ==> parse_unsigned(
                    info[i].1,
                    u16::MAX as nat,
                ) == Some(months)
        }),
{
    let info = pairs_of(tag_value(tags, "badge-info"@)->0);
    let names = pair_names(info);
    if forall|k: int| 0 <= k < info.len() ==> (#[trigger] info[k]).0 != "subscriber"@ {
        lemma_index_of_unique(names, "subscriber"@, info.len() as int);
    }
    assert forall|i: int|
        0 <= i < info.len() && (#[trigger] info[i]).0 == "subscriber"@ && (forall|k: int|
            0 <= k < i ==> (#[trigger] info[k]).0 != "subscriber"@) implies parse_unsigned(
        info[i].1,
        u16::MAX as nat,
    ) == Some(decode_spec(text, tags)->Ok_0.sub_months) by {
        lemma_index_of_unique(names, "subscriber"@, i);
    }
}

/// Looks a tag up by its key and returns its value, the empty text where
/// the tag carries none.
pub fn get_tag_value(tags: &Vec<Tag>, tag_name: &'static str) -> (r: Result<String, BotError>)
    ensures
        match r {
            Ok(v) => tag_value(tags_view(tags@), tag_name@) == Some(v@),
            Err(e) => tag_value(tags_view(tags@), tag_name@) is None && e@
                == BotErrorView::MissingField(tag_name@),
        },
{
    let ghost keys = tag_keys(tags_view(tags@));
    let mut i: usize = 0;
    while i < tags.len()
        invariant
            i <= tags.len(),
            keys == tag_keys(tags_view(tags@)),
            forall|k: int| 0 <= k < i ==> keys[k] != tag_name@,
        decreases tags.len() - i,
    {
        if str_equal(tags[i].0.as_str(), tag_name) {
            let value = match &tags[i].1 {
                Some(v) => v.clone(),
                None => String::new(),
            };
            proof {
                lemma_index_of_unique(keys, tag_name@, i as int);
            }
            return Ok(value);
        }
        i += 1;
    }
    proof {
        lemma_index_of_unique(keys, tag_name@, i as int);
    }
    Err(BotError::MissingField(tag_name))
}

/// Reads the badges out of the value of the `badges` tag.
pub fn decode_badges(raw: &str) -> (r: Option<Vec<(String, u32)>>)
    ensures
        match r {
            Some(b) => badge_values(pairs_of(raw@)) == Some(badge_views(b@)),
            None => badge_values(pairs_of(raw@)) is None,
        },
{
    let pairs = split_pairs(raw);
    let ghost views = pairs_of(raw@);
    let mut out: Vec<(String, u32)> = Vec::new();
    let mut i: usize = 0;
    while i < pairs.len()
        invariant
            i <= pairs.len(),
            views == pairs_of(raw@),
            views == pair_views(pairs@),
            out.len() == i,
            forall|k: int|
                0 <= k < i ==> (#[trigger] parse_unsigned(views[k].1, u32::MAX as nat)) == Some(
                    out@[k].1 as nat,
                ),
            forall|k: int| 0 <= k < i ==> (#[trigger] out@[k]).0@ == views[k].0,
        decreases pairs.len() - i,
    {
        assert(views[i as int] == (pairs@[i as int].0@, pairs@[i as int].1@));
        match parse_u32(pairs[i].1.as_str()) {
            Some(value) => {
                out.push((pairs[i].0.clone(), value));
            },
            None => {
                assert(parse_unsigned(views[i as int].1, u32::MAX as nat) is None);
                return None;
            },
        }
        i += 1;
    }
    proof {
        assert(all_values_numeric(views));
        assert(badge_values(views)->0 =~= badge_views(out@));
    }
    Some(out)
}

/// Reads the months of subscription out of the value of the `badge-info`
/// tag.
pub fn decode_sub_months(raw: &str) -> (r: Option<u16>)
    ensures
        match r {
            Some(m) => sub_months_of(pairs_of(raw@)) == Some(m as nat),
            None => sub_months_of(pairs_of(raw@)) is None,
        },
{
    let pairs = split_pairs(raw);
    let ghost names = pair_names(pairs_of(raw@));
    let mut i: usize = 0;
    while i < pairs.len()
        invariant
            i <= pairs.len(),
            pairs_of(raw@) == pair_views(pairs@),
            names == pair_names(pairs_of(raw@)),
            forall|k: int| 0 <= k < i ==> names[k] != "subscriber"@,
        decreases pairs.len() - i,
    {
        if str_equal(pairs[i].0.as_str(), "subscriber") {
            proof {
                lemma_index_of_unique(names, "subscriber"@, i as int);
            }
            return parse_u16(pairs[i].1.as_str());
        }
        i += 1;
    }
    proof {
        lemma_index_of_unique(names, "subscriber"@, i as int);
    }
    Some(0)
}

impl TwitchMessage {
    /// Decodes a chat line from its body and its tags.
    ///
    /// The required tags are `id`, `user-id`, `mod`, `subscriber`,
    /// `color`, `badge-info` and `badges`. `mod` and `subscriber` are true
    /// exactly where the value is `1`; `vip` is true exactly where the tag
    /// is there; `display-name` and `bits` may be left out. Either every
    /// field is filled as `decode_spec` says or no message is returned.
    pub fn new(text: String, tags: Vec<Tag>) -> (r: Result<Self, BotError>)
        ensures
            match r {
                Ok(m) => decode_spec(text@, tags_view(tags@)) == Ok::<MessageView, BotErrorView>(m@),
                Err(e) => decode_spec(text@, tags_view(tags@)) == Err::<MessageView, BotErrorView>(
                    e@,
                ),
            },
    {
        let id = match get_tag_value(&tags, "id") {
            Ok(v) => v,
            Err(e) => { return Err(e); },
        };
        let user_id = match get_tag_value(&tags, "user-id") {
            Ok(v) => v,
            Err(e) => { return Err(e); },
        };
        let moderator = match get_tag_value(&tags, "mod") {
            Ok(v) => str_equal(v.as_str(), "1"),
            Err(e) => { return Err(e); },
        };
        let subscriber = match get_tag_value(&tags, "subscriber") {
            Ok(v) => str_equal(v.as_str(), "1"),
            Err(e) => { return Err(e); },
        };
        let color = match get_tag_value(&tags, "color") {
            Ok(v) => v,
            Err(e) => { return Err(e); },
        };
        let badge_info = match get_tag_value(&tags, "badge-info") {
            Ok(v) => v,
            Err(e) => { return Err(e); },
        };
        let badges_raw = match get_tag_value(&tags, "badges") {
            Ok(v) => v,
            Err(e) => { return Err(e); },
        };
        let vip = get_tag_value(&tags, "vip").is_ok();
        let display_name = match get_tag_value(&tags, "display-name") {
            Ok(v) => Some(v),
            Err(_) => None,
        };
        let bits = match get_tag_value(&tags, "bits") {
            Ok(v) => match parse_u32(v.as_str()) {
                Some(n) => n,
                None => { return Err(BotError::InvalidNumber("bits")); },
            },
            Err(_) => 0,
        };
        let badges = match decode_badges(badges_raw.as_str()) {
            Some(b) => b,
            None => { return Err(BotError::InvalidNumber("badges")); },
        };
        let sub_months = match decode_sub_months(badge_info.as_str()) {
            Some(m) => m,
            None => { return Err(BotError::InvalidNumber("badge-info")); },
        };
        Ok(
            TwitchMessage {
                id,
                user_id,
                moderator,
                subscriber,
                vip,
                color,
                display_name,
                bits,
                badges,
                sub_months,
                text,
            },
        )
    }
}

} // verus!
