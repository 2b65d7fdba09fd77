//! The Extensible Prioritization Scheme (RFC 9218), with a `sched` member for the packet scheduler.

use sfv::{Dictionary as SfvDictionary, GenericBareItem, ListEntry, Parser};
use vstd::prelude::*;

use crate::text::str_eq;

verus! {

/// The urgency of a stream that asks for none.
pub const DEFAULT_URGENCY: u8 = 3;

/// Whether a stream that does not say so is incremental.
pub const DEFAULT_INCREMENTAL: bool = false;

/// The highest urgency.
pub const MIN_URGENCY: i64 = 0;

/// The lowest urgency.
pub const MAX_URGENCY: i64 = 7;

/// The priority of an HTTP/3 stream.
#[derive(Debug, Clone, Copy, PartialEq, Eq, Structural)]
pub struct Priority {
    pub urgency: u8,
    pub incremental: bool,
}

impl Priority {
    pub fn new(urgency: u8, incremental: bool) -> (priority: Self)
        ensures
            priority == (Priority { urgency, incremental }),
    {
        Priority { urgency, incremental }
    }

    /// The priority of a stream that asks for none.
    pub open spec fn spec_default() -> Self {
        Priority { urgency: DEFAULT_URGENCY, incremental: DEFAULT_INCREMENTAL }
    }
}

impl Default for Priority {
    fn default() -> (priority: Self)
        ensures
            priority == Priority::spec_default(),
    {
        Priority { urgency: DEFAULT_URGENCY, incremental: DEFAULT_INCREMENTAL }
    }
}

/// The value of an item of a Structured Field, as far as the priorities read it.
#[derive(Debug, PartialEq, Eq)]
pub enum BareItem {
    Integer(i64),
    Boolean(bool),
    Token(String),
    Decimal,
    String,
    ByteSequence,
    Date,
    DisplayString,
}

/// A member of a Structured Field dictionary.
#[derive(Debug, PartialEq, Eq)]
pub enum Member {
    Item(BareItem),
    InnerList,
}

/// What a member says.
pub enum MemberView {
    Integer(i64),
    Boolean(bool),
    Token(Seq<char>),
    OtherItem,
    InnerList,
}

impl View for Member {
    type V = MemberView;

    open spec fn view(&self) -> MemberView {
        match self {
            Member::Item(BareItem::Integer(n)) => MemberView::Integer(*n),
            Member::Item(BareItem::Boolean(b)) => MemberView::Boolean(*b),
            Member::Item(BareItem::Token(t)) => MemberView::Token(t@),
            Member::Item(_) => MemberView::OtherItem,
            Member::InnerList => MemberView::InnerList,
        }
    }
}

/// A Structured Field dictionary: its members by name, in their order.
#[derive(Debug, PartialEq, Eq)]
pub struct Dictionary {
    pub members: Vec<(String, Member)>,
}

impl View for Dictionary {
    type V = Seq<(Seq<char>, MemberView)>;

    open spec fn view(&self) -> Seq<(Seq<char>, MemberView)> {
        self.members@.map_values(|m: (String, Member)| (m.0@, m.1@))
    }
}

/// The member of a dictionary with the given name.
pub open spec fn lookup(members: Seq<(Seq<char>, MemberView)>, name: Seq<char>) -> Option<
    MemberView,
>
    decreases members.len(),
{
    if members.len() == 0 {
        None
    } else if members[0].0 == name {
        Some(members[0].1)
    } else {
        lookup(members.drop_first(), name)
    }
}

impl Dictionary {
    /// The member with the given name.
    pub fn get(&self, name: &str) -> (r: Option<&Member>)
        ensures
            match r {
                Some(m) => lookup(self@, name@) == Some(m@),
                None => lookup(self@, name@) is None,
            },
    {
        let mut i: usize = 0;
        assert(self@.skip(0) =~= self@);
        while i < self.members.len()
            invariant
                i <= self.members@.len(),
                lookup(self@, name@) == lookup(self@.skip(i as int), name@),
            decreases self.members@.len() - i,
        {
            assert(self@.skip(i as int)[0] == self@[i as int]);
            assert(self@.skip(i as int).drop_first() =~= self@.skip(i + 1));
            let member = &self.members[i];
            if str_eq(member.0.as_str(), name) {
                return Some(&member.1);
            }
            i = i + 1;
        }
        assert(self@.skip(i as int).len() == 0);
        None
    }
}

/// The members that `sfv::Parser::parse` finds in a field value that is read as a dictionary,
/// `None` where it reports an error.
pub uninterp spec fn parsed_dictionary(bytes: Seq<u8>) -> Option<Seq<(Seq<char>, MemberView)>>;

/// `sfv::Parser::parse` into an `sfv::Dictionary`, on the bytes of a field value. What it finds is
/// named `parsed_dictionary`; beyond that, no name comes twice and an empty value is an empty
/// dictionary. How the crate reads other values is left unsaid.
#[verifier::external_body]
fn parse_dictionary(bytes: &[u8]) -> (r: Option<Dictionary>)
    ensures
        match r {
            Some(d) => parsed_dictionary(bytes@) == Some(d@),
            None => parsed_dictionary(bytes@) is None,
        },
        r matches Some(d) ==> forall|i: int, j: int|
            0 <= i < j < d@.len() ==> #[trigger] d@[i].0 != #[trigger] d@[j].0,
        bytes@.len() == 0 ==> r is Some && r->0@.len() == 0,
{
    let dict = Parser::new(bytes).parse::<SfvDictionary>().ok()?;
    let members = dict.into_iter().map(|(name, entry)| (name.into(), match entry {
        ListEntry::InnerList(_) => Member::InnerList,
        ListEntry::Item(item) => Member::Item(match item.bare_item {
            GenericBareItem::Integer(n) => BareItem::Integer(n.into()),
            GenericBareItem::Boolean(b) => BareItem::Boolean(b),
            GenericBareItem::Token(t) => BareItem::Token(t.into()),
            GenericBareItem::Decimal(_) => BareItem::Decimal,
            GenericBareItem::String(_) => BareItem::String,
            GenericBareItem::ByteSequence(_) => BareItem::ByteSequence,
            GenericBareItem::Date(_) => BareItem::Date,
            GenericBareItem::DisplayString(_) => BareItem::DisplayString
        })
    })).collect();
    Some(Dictionary { members })
}

/// A number, brought into the range of urgencies.
pub open spec fn clamp(u: int) -> int {
    if u < MIN_URGENCY {
        MIN_URGENCY as int
    } else if u > MAX_URGENCY {
        MAX_URGENCY as int
    } else {
        u
    }
}

/// The urgency that a dictionary asks for: its integer `u`, brought into the range of urgencies.
pub open spec fn urgency_of(members: Seq<(Seq<char>, MemberView)>) -> int {
    match lookup(members, "u"@) {
        Some(MemberView::Integer(u)) => clamp(u as int),
        _ => DEFAULT_URGENCY as int,
    }
}

/// The priority that a field value asks for, from what parsing it gave.
pub open spec fn priority_of(dict: Option<Seq<(Seq<char>, MemberView)>>) -> Priority {
    match dict {
        Some(members) => Priority {
            urgency: urgency_of(members) as u8,
            incremental: lookup(members, "i"@) == Some(MemberView::Boolean(true)),
        },
        None => Priority::spec_default(),
    }
}

/// The `sched` token of a field value, from what parsing it gave.
pub open spec fn sched_of(dict: Option<Seq<(Seq<char>, MemberView)>>) -> Option<Seq<char>> {
    match dict {
        Some(members) => match lookup(members, "sched"@) {
            Some(MemberView::Token(t)) => Some(t),
            _ => None,
        },
        None => None,
    }
}

/// A dictionary by its view, where there is one.
pub open spec fn dictionary_view(dict: Option<Dictionary>) -> Option<
    Seq<(Seq<char>, MemberView)>,
> {
    match dict {
        Some(d) => Some(d@),
        None => None,
    }
}

/// The priority that a parsed field value asks for.
pub fn priority_from_dictionary(dict: &Option<Dictionary>) -> (priority: Priority)
    ensures
        priority == priority_of(dictionary_view(*dict)),
{
    let mut urgency: u8 = DEFAULT_URGENCY;
    let mut incremental: bool = DEFAULT_INCREMENTAL;

    if let Some(dict) = dict {
        urgency = match dict.get("u") {
            Some(Member::Item(BareItem::Integer(u))) => clamp_urgency(*u),
            _ => DEFAULT_URGENCY,
        };
        incremental = match dict.get("i") {
            Some(Member::Item(BareItem::Boolean(i))) => *i,
            _ => false,
        };
    }
    Priority::new(urgency, incremental)
}

fn clamp_urgency(u: i64) -> (urgency: u8)
    ensures
        urgency == clamp(u as int),
{
    if u < MIN_URGENCY {
        MIN_URGENCY as u8
    } else if u > MAX_URGENCY {
        MAX_URGENCY as u8
    } else {
        u as u8
    }
}

/// The `sched` token of a parsed field value.
pub fn scheduler_hint_from_dictionary(dict: &Option<Dictionary>) -> (hint: Option<String>)
    ensures
        match hint {
            Some(h) => sched_of(dictionary_view(*dict)) == Some(h@),
            None => sched_of(dictionary_view(*dict)) is None,
        },
{
    match dict {
        Some(dict) => match dict.get("sched") {
            Some(Member::Item(BareItem::Token(t))) => Some(t.clone()),
            _ => None,
        },
        None => None,
    }
}

/// The bytes of a header value, none where the header is absent.
pub open spec fn raw_bytes(raw_prio: Option<Vec<u8>>) -> Seq<u8> {
    match raw_prio {
        Some(bytes) => bytes@,
        None => Seq::empty(),
    }
}

/// Parses the value of a `priority` header.
pub fn parse_raw_priority(raw_prio: Option<Vec<u8>>) -> (priority: Option<Priority>)
    ensures
        priority == Some(priority_of(parsed_dictionary(raw_bytes(raw_prio)))),
        raw_bytes(raw_prio).len() == 0 ==> priority == Some(Priority::spec_default()),
        priority matches Some(p) && p.urgency <= MAX_URGENCY,
{
    let prio_bytes: Vec<u8> = match raw_prio {
        Some(bytes) => bytes,
        None => Vec::new(),
    };
    let dict = parse_dictionary(prio_bytes.as_slice());
    Some(priority_from_dictionary(&dict))
}

/// Extracts the `sched` token from an EPS priority header, if present.
///
/// The `sched` parameter selects the multipath packet-scheduling algorithm
/// on the proxy for the outer QUIC connection.  It accepts both full names
/// and common abbreviations:
///
/// | `sched=` value | Algorithm       |
/// |----------------|-----------------|
/// | `lowrtt`       | Low-RTT (default) |
/// | `minrtt`       | Min-RTT         |
/// | `rr`           | Round-Robin     |
/// | `rand`         | Random          |
/// | `ll`           | Lowest-Latency  |
/// | `ecf`          | Earliest Completion First |
/// | `sa-ecf`       | Stream-Aware ECF |
///
/// Returns `None` when the header is absent, malformed, or has no `sched`
/// member.
pub fn parse_scheduler_hint(raw_prio: Option<Vec<u8>>) -> (hint: Option<String>)
    ensures
        match hint {
            Some(h) => raw_prio is Some && sched_of(parsed_dictionary(raw_bytes(raw_prio)))
                == Some(h@),
            None => raw_prio is None || sched_of(parsed_dictionary(raw_bytes(raw_prio))) is None,
        },
        raw_bytes(raw_prio).len() == 0 ==> hint is None,
{
    match raw_prio {
        Some(prio_bytes) => {
            let dict = parse_dictionary(prio_bytes.as_slice());
            scheduler_hint_from_dictionary(&dict)
        },
        None => None,
    }
}

/// Whatever a client asks for, the urgency is one of the eight that there are.
pub proof fn law_urgency_in_range(dict: Option<Seq<(Seq<char>, MemberView)>>)
    ensures
        MIN_URGENCY <= priority_of(dict).urgency <= MAX_URGENCY,
{
}

/// A member of another name changes neither the priority nor the scheduler hint.
pub proof fn law_other_members_ignored(
    members: Seq<(Seq<char>, MemberView)>,
    at: int,
    name: Seq<char>,
    member: MemberView,
)
    requires
        0 <= at <= members.len(),
        name != "u"@,
        name != "i"@,
        name != "sched"@,
    ensures
        priority_of(Some(members.insert(at, (name, member)))) == priority_of(Some(members)),
        sched_of(Some(members.insert(at, (name, member)))) == sched_of(Some(members)),
{
    lemma_lookup_insert(members, at, name, member, "u"@);
    lemma_lookup_insert(members, at, name, member, "i"@);
    lemma_lookup_insert(members, at, name, member, "sched"@);
}

proof fn lemma_lookup_insert(
    members: Seq<(Seq<char>, MemberView)>,
    at: int,
    name: Seq<char>,
    member: MemberView,
    wanted: Seq<char>,
)
    requires
        0 <= at <= members.len(),
        name != wanted,
    ensures
        lookup(members.insert(at, (name, member)), wanted) == lookup(members, wanted),
    decreases members.len(),
{
    let longer = members.insert(at, (name, member));
    if at == 0 {
        assert(longer.drop_first() =~= members);
    } else {
        assert(longer[0] == members[0]);
        assert(longer.drop_first() =~= members.drop_first().insert(at - 1, (name, member)));
        lemma_lookup_insert(members.drop_first(), at - 1, name, member, wanted);
    }
}

/// A member is found by its name: the first one that has it, none where no member has it.
pub proof fn law_lookup_finds_first(members: Seq<(Seq<char>, MemberView)>, name: Seq<char>)
    ensures
        lookup(members, name) is None <==> forall|i: int|
            0 <= i < members.len() ==> #[trigger] members[i].0 != name,
        forall|i: int|
            0 <= i < members.len() && #[trigger] members[i].0 == name && (forall|j: int|
                0 <= j < i ==> #[trigger] members[j].0 != name) ==> lookup(members, name) == Some(
                members[i].1,
            ),
    decreases members.len(),
{
    if members.len() > 0 && members[0].0 != name {
        let rest = members.drop_first();
        law_lookup_finds_first(rest, name);
        assert(forall|i: int| 0 <= i < rest.len() ==> #[trigger] rest[i] == members[i + 1]);
        if lookup(members, name) is None {
            assert forall|i: int| 0 <= i < members.len() implies #[trigger] members[i].0
                != name by {
                if i > 0 {
                    assert(rest[i - 1].0 != name);
                }
            }
        }
        assert forall|i: int|
            0 <= i < members.len() && #[trigger] members[i].0 == name && (forall|j: int|
                0 <= j < i ==> #[trigger] members[j].0 != name) implies lookup(members, name)
            == Some(members[i].1) by {
            assert(rest[i - 1].0 == name);
            assert forall|j: int| 0 <= j < i - 1 implies #[trigger] rest[j].0 != name by {
                assert(members[j + 1].0 != name);
            }
        }
    }
}

/// The priority depends on the members `u` and `i` alone: dictionaries that agree on these two ask
/// for the same priority, whatever else they hold.
pub proof fn law_priority_depends_on_u_and_i(
    first: Seq<(Seq<char>, MemberView)>,
    second: Seq<(Seq<char>, MemberView)>,
)
    requires
        lookup(first, "u"@) == lookup(second, "u"@),
        lookup(first, "i"@) == lookup(second, "i"@),
    ensures
        priority_of(Some(first)) == priority_of(Some(second)),
{
}

/// A priority is incremental exactly where `i` is the boolean true. Its urgency is the integer `u`,
/// at least 0 and at most 7, and 3 where `u` is no integer or is not there.
pub proof fn law_priority_says_what_members_say(members: Seq<(Seq<char>, MemberView)>)
    ensures
        ({
            let priority = priority_of(Some(members));
            &&& priority.incremental <==> lookup(members, "i"@) == Some(MemberView::Boolean(true))
            &&& lookup(members, "u"@) matches Some(MemberView::Integer(u)) ==> {
                &&& 0 <= u <= 7 ==> priority.urgency == u
                &&& u < 0 ==> priority.urgency == 0
                &&& u > 7 ==> priority.urgency == 7
            }
            &&& !(lookup(members, "u"@) matches Some(MemberView::Integer(_))) ==> priority.urgency
                == 3
        }),
{
}

/// A header that is no dictionary asks for urgency 3, not incremental, and hints at no scheduler;
/// and so does an empty one.
pub proof fn law_no_members_no_wishes()
    ensures
        priority_of(None) == (Priority { urgency: 3, incremental: false }),
        priority_of(Some(Seq::empty())) == (Priority { urgency: 3, incremental: false }),
        sched_of(None) is None,
        sched_of(Some(Seq::empty())) is None,
{
}

/// The scheduler hint is the token `sched` and nothing else: it is there exactly where `sched` is a
/// token, and no other member changes it.
pub proof fn law_hint_is_the_sched_token(
    members: Seq<(Seq<char>, MemberView)>,
    other: Seq<(Seq<char>, MemberView)>,
)
    ensures
        forall|token: Seq<char>| #[trigger]
            sched_is(members, token) <==> lookup(members, "sched"@) == Some(
                MemberView::Token(token),
            ),
        sched_of(Some(members)) is Some <==> lookup(members, "sched"@) matches Some(
            MemberView::Token(_),
        ),
        lookup(members, "sched"@) == lookup(other, "sched"@) ==> sched_of(Some(members))
            == sched_of(Some(other)),
{
}

/// Whether a dictionary hints at the scheduler of this name.
pub open spec fn sched_is(members: Seq<(Seq<char>, MemberView)>, name: Seq<char>) -> bool {
    sched_of(Some(members)) == Some(name)
}

/// A member is read as what it is: an integer, a boolean or a token with its value, and nothing
/// that is none of these as one of them.
pub proof fn law_members_are_read_as_they_are(member: Member)
    ensures
        member matches Member::Item(BareItem::Integer(n)) ==> member@ == MemberView::Integer(n),
        member@ matches MemberView::Integer(n) ==> member == Member::Item(BareItem::Integer(n)),
        member matches Member::Item(BareItem::Boolean(b)) ==> member@ == MemberView::Boolean(b),
        member@ matches MemberView::Boolean(b) ==> member == Member::Item(BareItem::Boolean(b)),
        member matches Member::Item(BareItem::Token(t)) ==> member@ == MemberView::Token(t@),
        member@ is Token ==> member matches Member::Item(BareItem::Token(_)),
{
}

} // verus!
