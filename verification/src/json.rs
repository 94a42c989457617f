//! JSON values as the wire carries them.
//!
//! Objects keep their members in order, so a body is written in the order it
//! was built and a received object is sent back as it was read. A key set on
//! an object that lacks it goes among the members in key order, as a JSON
//! object map keeps its keys.

use vstd::prelude::*;

use crate::text::text_precedes;

verus! {

/// A JSON number in one of the three forms a JSON reader yields.
#[derive(Debug, PartialEq, Eq)]
pub enum Number {
    /// A non-negative integer.
    PosInt(u64),
    /// A negative integer.
    NegInt(i64),
    /// Any other number, as its shortest decimal text.
    Float(String),
}

/// One member of a JSON object.
#[derive(Debug, PartialEq, Eq)]
pub struct Member {
    /// Its key.
    pub key: String,
    /// Its value.
    pub value: Json,
}

/// A JSON value.
#[derive(Debug, PartialEq, Eq)]
pub enum Json {
    /// `null`.
    Null,
    /// `true` or `false`.
    Bool(bool),
    /// A number.
    Number(Number),
    /// A string.
    Str(String),
    /// An array.
    Array(Vec<Json>),
    /// An object, its members in order.
    Object(Vec<Member>),
}

/// The mathematical form of a [`Number`].
pub enum NumberV {
    /// A non-negative integer.
    PosInt(u64),
    /// A negative integer.
    NegInt(i64),
    /// Any other number, as its decimal text.
    Float(Seq<char>),
}

/// The mathematical form of a [`Member`].
pub struct MemberV {
    /// Its key.
    pub key: Seq<char>,
    /// Its value.
    pub value: JsonV,
}

/// The mathematical form of a [`Json`] value.
pub enum JsonV {
    /// `null`.
    Null,
    /// A boolean.
    Bool(bool),
    /// A number.
    Number(NumberV),
    /// A string.
    Str(Seq<char>),
    /// An array.
    Array(Seq<JsonV>),
    /// An object.
    Object(Seq<MemberV>),
}

impl View for Number {
    type V = NumberV;

    open spec fn view(&self) -> NumberV {
        match self {
            Number::PosInt(u) => NumberV::PosInt(*u),
            Number::NegInt(i) => NumberV::NegInt(*i),
            Number::Float(t) => NumberV::Float(t@),
        }
    }
}

/// The forms of a sequence of values.
pub open spec fn items_view(items: Seq<Json>) -> Seq<JsonV>
    decreases items,
{
    if items.len() == 0 {
        Seq::empty()
    } else {
        proof {
            assert(decreases_to!(items => items.drop_last()));
            assert(decreases_to!(items => items[items.len() - 1]));
        }
        items_view(items.drop_last()).push(json_view(items.last()))
    }
}

/// The forms of a sequence of members.
pub open spec fn members_view(members: Seq<Member>) -> Seq<MemberV>
    decreases members,
{
    if members.len() == 0 {
        Seq::empty()
    } else {
        proof {
            assert(decreases_to!(members => members.drop_last()));
            assert(decreases_to!(members => members[members.len() - 1]));
        }
        members_view(members.drop_last()).push(
            MemberV { key: members.last().key@, value: json_view(members.last().value) },
        )
    }
}

/// The mathematical form of a value.
pub open spec fn json_view(j: Json) -> JsonV
    decreases j,
{
    match j {
        Json::Null => JsonV::Null,
        Json::Bool(b) => JsonV::Bool(b),
        Json::Number(n) => JsonV::Number(n@),
        Json::Str(s) => JsonV::Str(s@),
        Json::Array(items) => JsonV::Array(items_view(items@)),
        Json::Object(members) => JsonV::Object(members_view(members@)),
    }
}

impl View for Json {
    type V = JsonV;

    open spec fn view(&self) -> JsonV {
        json_view(*self)
    }
}

impl View for Member {
    type V = MemberV;

    open spec fn view(&self) -> MemberV {
        MemberV { key: self.key@, value: self.value@ }
    }
}

/// The forms of a sequence of values, item by item.
pub broadcast proof fn lemma_items_view(items: Seq<Json>)
    ensures
        #[trigger] items_view(items).len() == items.len(),
        forall|i: int| 0 <= i < items.len() ==> #[trigger] items_view(items)[i] == items[i]@,
    decreases items.len(),
{
    if items.len() > 0 {
        lemma_items_view(items.drop_last());
        assert forall|i: int| 0 <= i < items.len() implies #[trigger] items_view(items)[i]
            == items[i]@ by {
            if i < items.len() - 1 {
                assert(items.drop_last()[i] == items[i]);
            }
        }
    }
}

/// The forms of a sequence of members, member by member.
pub broadcast proof fn lemma_members_view(members: Seq<Member>)
    ensures
        #[trigger] members_view(members).len() == members.len(),
        forall|i: int| 0 <= i < members.len() ==> #[trigger] members_view(members)[i] == members[i]@,
    decreases members.len(),
{
    if members.len() > 0 {
        lemma_members_view(members.drop_last());
        assert forall|i: int| 0 <= i < members.len() implies #[trigger] members_view(members)[i]
            == members[i]@ by {
            if i < members.len() - 1 {
                assert(members.drop_last()[i] == members[i]);
            }
        }
    }
}

/// Two sequences of values with the same forms item by item have the same form.
pub proof fn lemma_items_view_ext(a: Seq<Json>, b: Seq<Json>)
    requires
        a.len() == b.len(),
        forall|i: int| 0 <= i < a.len() ==> #[trigger] a[i]@ == b[i]@,
    ensures
        items_view(a) == items_view(b),
{
    lemma_items_view(a);
    lemma_items_view(b);
    assert(items_view(a) =~= items_view(b));
}

/// Two sequences of members with the same forms member by member have the same form.
pub proof fn lemma_members_view_ext(a: Seq<Member>, b: Seq<Member>)
    requires
        a.len() == b.len(),
        forall|i: int| 0 <= i < a.len() ==> #[trigger] a[i]@ == b[i]@,
    ensures
        members_view(a) == members_view(b),
{
    lemma_members_view(a);
    lemma_members_view(b);
    assert(members_view(a) =~= members_view(b));
}

/// Removing a member removes its form.
pub proof fn lemma_members_view_remove(members: Seq<Member>, i: int)
    requires
        0 <= i < members.len(),
    ensures
        members_view(members.remove(i)) == members_view(members).remove(i),
{
    lemma_members_view(members);
    lemma_members_view(members.remove(i));
    assert(members_view(members.remove(i)) =~= members_view(members).remove(i));
}

/// Replacing a member replaces its form.
pub proof fn lemma_members_view_update(members: Seq<Member>, i: int, m: Member)
    requires
        0 <= i < members.len(),
    ensures
        members_view(members.update(i, m)) == members_view(members).update(i, m@),
{
    lemma_members_view(members);
    lemma_members_view(members.update(i, m));
    assert(members_view(members.update(i, m)) =~= members_view(members).update(i, m@));
}

/// Joining two sequences of values joins their forms.
pub proof fn lemma_items_view_add(a: Seq<Json>, b: Seq<Json>)
    ensures
        items_view(a + b) == items_view(a) + items_view(b),
{
    lemma_items_view(a);
    lemma_items_view(b);
    lemma_items_view(a + b);
    assert(items_view(a + b) =~= items_view(a) + items_view(b));
}

/// Appending a member appends its form.
pub broadcast proof fn lemma_members_view_push(members: Seq<Member>, m: Member)
    ensures
        #[trigger] members_view(members.push(m)) == members_view(members).push(m@),
{
    assert(members.push(m).drop_last() == members);
}

/// Appending a value appends its form.
pub broadcast proof fn lemma_items_view_push(items: Seq<Json>, j: Json)
    ensures
        #[trigger] items_view(items.push(j)) == items_view(items).push(j@),
{
    assert(items.push(j).drop_last() == items);
}

/// No members have no forms.
pub broadcast proof fn lemma_members_view_empty(members: Seq<Member>)
    requires
        members.len() == 0,
    ensures
        #[trigger] members_view(members) == Seq::<MemberV>::empty(),
{
}

/// No items have no forms.
pub broadcast proof fn lemma_items_view_empty(items: Seq<Json>)
    requires
        items.len() == 0,
    ensures
        #[trigger] items_view(items) == Seq::<JsonV>::empty(),
{
}

pub broadcast group group_json_view {
    lemma_items_view,
    lemma_members_view,
    lemma_members_view_push,
    lemma_items_view_push,
    lemma_members_view_empty,
    lemma_items_view_empty,
}

/// The position of the first member of `members` with this key.
pub open spec fn find(members: Seq<Member>, key: Seq<char>) -> Option<int>
    decreases members.len(),
{
    if members.len() == 0 {
        None
    } else if members[0].key@ == key {
        Some(0)
    } else {
        match find(members.drop_first(), key) {
            Some(i) => Some(i + 1),
            None => None,
        }
    }
}

/// The value of the first member with this key.
pub open spec fn get(members: Seq<Member>, key: Seq<char>) -> Option<Json> {
    match find(members, key) {
        Some(i) => Some(members[i].value),
        None => None,
    }
}

/// Whether an object has a member with this key.
pub open spec fn has(members: Seq<Member>, key: Seq<char>) -> bool {
    find(members, key) is Some
}

/// `find` names the first member with the key, and is `None` when there is none.
pub proof fn lemma_find(members: Seq<Member>, key: Seq<char>)
    ensures
        match find(members, key) {
            Some(i) => 0 <= i < members.len() && members[i].key@ == key && forall|j: int|
                0 <= j < i ==> #[trigger] members[j].key@ != key,
            None => forall|j: int| 0 <= j < members.len() ==> #[trigger] members[j].key@ != key,
        },
    decreases members.len(),
{
    if members.len() > 0 && members[0].key@ != key {
        lemma_find(members.drop_first(), key);
        match find(members.drop_first(), key) {
            Some(i) => {
                assert forall|j: int| 0 <= j < i + 1 implies #[trigger] members[j].key@ != key by {
                    if j > 0 {
                        assert(members[j] == members.drop_first()[j - 1]);
                    }
                }
            },
            None => {
                assert forall|j: int| 0 <= j < members.len() implies #[trigger] members[j].key@ != key by {
                    if j > 0 {
                        assert(members[j] == members.drop_first()[j - 1]);
                    }
                }
            },
        }
    }
}

/// The position of the first member form with this key.
pub open spec fn find_key(members: Seq<MemberV>, key: Seq<char>) -> Option<int>
    decreases members.len(),
{
    if members.len() == 0 {
        None
    } else if members[0].key == key {
        Some(0)
    } else {
        match find_key(members.drop_first(), key) {
            Some(i) => Some(i + 1),
            None => None,
        }
    }
}

/// The value of the first member form with this key.
pub open spec fn field_of(members: Seq<MemberV>, key: Seq<char>) -> Option<JsonV> {
    match find_key(members, key) {
        Some(i) => Some(members[i].value),
        None => None,
    }
}

/// `find_key` names the first member with the key, and is `None` when there is none.
pub proof fn lemma_find_key(members: Seq<MemberV>, key: Seq<char>)
    ensures
        match find_key(members, key) {
            Some(i) => 0 <= i < members.len() && members[i].key == key && forall|j: int|
                0 <= j < i ==> #[trigger] members[j].key != key,
            None => forall|j: int| 0 <= j < members.len() ==> #[trigger] members[j].key != key,
        },
    decreases members.len(),
{
    if members.len() > 0 && members[0].key != key {
        lemma_find_key(members.drop_first(), key);
        match find_key(members.drop_first(), key) {
            Some(i) => {
                assert forall|j: int| 0 <= j < i + 1 implies #[trigger] members[j].key != key by {
                    if j > 0 {
                        assert(members[j] == members.drop_first()[j - 1]);
                    }
                }
            },
            None => {
                assert forall|j: int| 0 <= j < members.len() implies #[trigger] members[j].key != key by {
                    if j > 0 {
                        assert(members[j] == members.drop_first()[j - 1]);
                    }
                }
            },
        }
    }
}

/// `find_key` names the position it is given when that is the first with the key.
pub proof fn lemma_find_key_at(m: Seq<MemberV>, key: Seq<char>, i: int)
    requires
        0 <= i < m.len(),
        m[i].key == key,
        forall|j: int| 0 <= j < i ==> #[trigger] m[j].key != key,
    ensures
        find_key(m, key) == Some(i),
{
    lemma_find_key(m, key);
    match find_key(m, key) {
        Some(j) => {
            if j < i {
                assert(m[j].key != key);
            } else if j > i {
                assert(m[i].key != key);
            }
        },
        None => {
            assert(m[i].key != key);
        },
    }
}

/// `find_key` is `None` when no member has the key.
pub proof fn lemma_find_key_none(m: Seq<MemberV>, key: Seq<char>)
    requires
        forall|j: int| 0 <= j < m.len() ==> #[trigger] m[j].key != key,
    ensures
        find_key(m, key) is None,
{
    lemma_find_key(m, key);
    match find_key(m, key) {
        Some(j) => {
            assert(m[j].key != key);
        },
        None => {},
    }
}

/// Looking a key up in an object and in its form find the same member.
pub proof fn lemma_find_view(members: Seq<Member>, key: Seq<char>)
    ensures
        find(members, key) == find_key(members_view(members), key),
        match find(members, key) {
            Some(i) => field_of(members_view(members), key) == Some(members[i].value@),
            None => field_of(members_view(members), key) is None,
        },
{
    lemma_find(members, key);
    lemma_find_key(members_view(members), key);
    lemma_members_view(members);
    match (find(members, key), find_key(members_view(members), key)) {
        (Some(i), Some(j)) => {
            if i < j {
                assert(members_view(members)[i].key == members[i].key@);
            } else if j < i {
                assert(members_view(members)[j].key == members[j].key@);
            }
        },
        (Some(i), None) => {
            assert(members_view(members)[i].key == members[i].key@);
        },
        (None, Some(j)) => {
            assert(members_view(members)[j].key == members[j].key@);
        },
        (None, None) => {},
    }
}

/// The position of the first member with this key.
pub fn position(members: &Vec<Member>, key: &str) -> (r: Option<usize>)
    ensures
        match r {
            Some(i) => i < members@.len() && find(members@, key@) == Some(i as int),
            None => find(members@, key@) is None,
        },
{
    proof {
        lemma_find(members@, key@);
    }
    let mut i: usize = 0;
    while i < members.len()
        invariant
            i <= members@.len(),
            forall|j: int| 0 <= j < i ==> #[trigger] members@[j].key@ != key@,
        decreases members.len() - i,
    {
        if crate::text::same_text(members[i].key.as_str(), key) {
            proof {
                lemma_find(members@, key@);
                match find(members@, key@) {
                    Some(j) => {
                        if j < i {
                            assert(members@[j].key@ != key@);
                        } else if j > i {
                            assert(members@[i as int].key@ != key@);
                        }
                    },
                    None => {
                        assert(members@[i as int].key@ != key@);
                    },
                }
            }
            return Some(i);
        }
        i = i + 1;
    }
    proof {
        match find(members@, key@) {
            Some(j) => {
                assert(members@[j].key@ != key@);
            },
            None => {},
        }
    }
    None
}

/// The value of the first member with this key.
pub fn get_member<'a>(members: &'a Vec<Member>, key: &str) -> (r: Option<&'a Json>)
    ensures
        r is None <==> get(members@, key@) is None,
        r matches Some(v) ==> get(members@, key@) == Some(*v),
        match r {
            Some(v) => field_of(members_view(members@), key@) == Some(v@),
            None => field_of(members_view(members@), key@) is None,
        },
{
    proof {
        lemma_find_view(members@, key@);
    }
    match position(members, key) {
        Some(i) => Some(&members[i].value),
        None => None,
    }
}

/// Removes the first member with this key and returns its value.
pub fn take_member(members: &mut Vec<Member>, key: &str) -> (r: Option<Json>)
    ensures
        r == get(old(members)@, key@),
        match r {
            Some(v) => field_of(members_view(old(members)@), key@) == Some(v@),
            None => field_of(members_view(old(members)@), key@) is None,
        },
        final(members)@ == (match find(old(members)@, key@) {
            Some(i) => old(members)@.remove(i),
            None => old(members)@,
        }),
{
    proof {
        lemma_find_view(members@, key@);
    }
    match position(members, key) {
        Some(i) => {
            let m = members.remove(i);
            Some(m.value)
        },
        None => None,
    }
}

/// The string value of the first member with this key, if it is a string.
pub open spec fn get_str(members: Seq<MemberV>, key: Seq<char>) -> Option<Seq<char>> {
    match field_of(members, key) {
        Some(JsonV::Str(s)) => Some(s),
        _ => None,
    }
}

/// The string value of the first member with this key, if it is a string.
pub fn get_string<'a>(members: &'a Vec<Member>, key: &str) -> (r: Option<&'a str>)
    ensures
        match r {
            Some(s) => get_str(members_view(members@), key@) == Some(s@),
            None => get_str(members_view(members@), key@) is None,
        },
{
    match get_member(members, key) {
        Some(Json::Str(s)) => Some(s.as_str()),
        _ => None,
    }
}

/// A member with this key and value.
pub fn member(key: &str, value: Json) -> (r: Member)
    ensures
        r.key@ == key@,
        r.value == value,
{
    Member { key: key.to_owned(), value }
}

/// A string value.
pub fn string(s: &str) -> (r: Json)
    ensures
        r@ == JsonV::Str(s@),
{
    Json::Str(s.to_owned())
}

/// An unsigned integer value.
pub fn unsigned(n: u64) -> (r: Json)
    ensures
        r@ == JsonV::Number(NumberV::PosInt(n)),
{
    Json::Number(Number::PosInt(n))
}

/// A signed integer value, in the form a JSON reader gives it.
pub fn signed(n: i64) -> (r: Json)
    ensures
        r@ == JsonV::Number(signed_view(n)),
{
    if n >= 0 {
        Json::Number(Number::PosInt(n as u64))
    } else {
        Json::Number(Number::NegInt(n))
    }
}

/// The form of a signed integer: non-negative ones are unsigned.
pub open spec fn signed_view(n: i64) -> NumberV {
    if n >= 0 {
        NumberV::PosInt(n as u64)
    } else {
        NumberV::NegInt(n)
    }
}

impl Clone for Number {
    fn clone(&self) -> (r: Self)
        ensures
            r == *self,
    {
        match self {
            Number::PosInt(u) => Number::PosInt(*u),
            Number::NegInt(i) => Number::NegInt(*i),
            Number::Float(t) => Number::Float(t.clone()),
        }
    }
}

impl Clone for Json {
    #[verifier::loop_isolation(false)]
    fn clone(&self) -> (r: Self)
        ensures
            r@ == self@,
        decreases self,
    {
        match self {
            Json::Null => Json::Null,
            Json::Bool(b) => Json::Bool(*b),
            Json::Number(n) => Json::Number(n.clone()),
            Json::Str(s) => Json::Str(s.clone()),
            Json::Array(items) => {
                let mut out: Vec<Json> = Vec::new();
                let mut k: usize = 0;
                while k < items.len()
                    invariant
                        k <= items.len(),
                        out@.len() == k,
                        forall|m: int| 0 <= m < k ==> #[trigger] out@[m]@ == items@[m]@,
                    decreases items.len() - k,
                {
                    proof {
                        assert(decreases_to!(items => items@));
                        assert(decreases_to!(items@ => items@[k as int]));
                    }
                    let c = items[k].clone();
                    out.push(c);
                    k = k + 1;
                }
                proof {
                    lemma_items_view_ext(out@, items@);
                }
                Json::Array(out)
            },
            Json::Object(members) => {
                let mut out: Vec<Member> = Vec::new();
                let mut k: usize = 0;
                while k < members.len()
                    invariant
                        k <= members.len(),
                        out@.len() == k,
                        forall|m: int| 0 <= m < k ==> #[trigger] out@[m]@ == members@[m]@,
                    decreases members.len() - k,
                {
                    proof {
                        assert(decreases_to!(members => members@));
                        assert(decreases_to!(members@ => members@[k as int]));
                        assert(decreases_to!(members@[k as int] => members@[k as int].value));
                    }
                    let c = members[k].value.clone();
                    out.push(Member { key: members[k].key.clone(), value: c });
                    k = k + 1;
                }
                proof {
                    lemma_members_view_ext(out@, members@);
                }
                Json::Object(out)
            },
        }
    }
}

impl Clone for Member {
    fn clone(&self) -> (r: Self)
        ensures
            r@ == self@,
    {
        Member { key: self.key.clone(), value: self.value.clone() }
    }
}

} // verus!

verus! {

/// A count that may be absent or `null`, both read as zero.
pub open spec fn optional_u64(v: Option<JsonV>) -> Option<u64> {
    match v {
        None => Some(0),
        Some(JsonV::Null) => Some(0),
        Some(JsonV::Number(NumberV::PosInt(n))) => Some(n),
        _ => None,
    }
}

/// A count that may be absent, read as zero, but not `null`.
pub open spec fn defaulted_u64(v: Option<JsonV>) -> Option<u64> {
    match v {
        None => Some(0),
        Some(JsonV::Number(NumberV::PosInt(n))) => Some(n),
        _ => None,
    }
}

/// The member `key` as an optional count: absent and `null` are zero.
pub fn read_optional_u64(members: &Vec<Member>, key: &str) -> (r: Option<u64>)
    ensures
        r == optional_u64(field_of(members_view(members@), key@)),
{
    match get_member(members, key) {
        None => Some(0),
        Some(Json::Null) => Some(0),
        Some(Json::Number(Number::PosInt(n))) => Some(*n),
        _ => None,
    }
}

/// The member `key` as a defaulted count: absent is zero, `null` is not a count.
pub fn read_defaulted_u64(members: &Vec<Member>, key: &str) -> (r: Option<u64>)
    ensures
        r == defaulted_u64(field_of(members_view(members@), key@)),
{
    match get_member(members, key) {
        None => Some(0),
        Some(Json::Number(Number::PosInt(n))) => Some(*n),
        _ => None,
    }
}

} // verus!

verus! {

/// A string that may be absent or `null`, both read as nothing.
pub open spec fn optional_string(v: Option<JsonV>) -> Option<Option<Seq<char>>> {
    match v {
        None => Some(None),
        Some(JsonV::Null) => Some(None),
        Some(JsonV::Str(s)) => Some(Some(s)),
        _ => None,
    }
}

/// The member `key` as an optional string: absent and `null` are nothing.
pub fn read_optional_string(members: &Vec<Member>, key: &str) -> (r: Option<Option<String>>)
    ensures
        match r {
            Some(Some(s)) => optional_string(field_of(members_view(members@), key@)) == Some(Some(s@)),
            Some(None) => optional_string(field_of(members_view(members@), key@)) == Some(None::<Seq<char>>),
            None => optional_string(field_of(members_view(members@), key@)) is None,
        },
{
    match get_member(members, key) {
        None => Some(None),
        Some(Json::Null) => Some(None),
        Some(Json::Str(s)) => Some(Some(s.clone())),
        _ => None,
    }
}

/// A 32-bit count that may be absent, read as zero, but not `null`.
pub open spec fn defaulted_u32(v: Option<JsonV>) -> Option<u32> {
    match v {
        None => Some(0),
        Some(JsonV::Number(NumberV::PosInt(n))) => if n <= u32::MAX {
            Some(n as u32)
        } else {
            None
        },
        _ => None,
    }
}

/// The member `key` as a defaulted 32-bit count.
pub fn read_defaulted_u32(members: &Vec<Member>, key: &str) -> (r: Option<u32>)
    ensures
        r == defaulted_u32(field_of(members_view(members@), key@)),
{
    match get_member(members, key) {
        None => Some(0),
        Some(Json::Number(Number::PosInt(n))) => if *n <= 0xffff_ffffu64 {
            Some(*n as u32)
        } else {
            None
        },
        _ => None,
    }
}

/// A 32-bit count that may be absent or `null`, both read as nothing.
pub open spec fn optional_u32(v: Option<JsonV>) -> Option<Option<u32>> {
    match v {
        None => Some(None),
        Some(JsonV::Null) => Some(None),
        Some(JsonV::Number(NumberV::PosInt(n))) => if n <= u32::MAX {
            Some(Some(n as u32))
        } else {
            None
        },
        _ => None,
    }
}

/// The member `key` as an optional 32-bit count.
pub fn read_optional_u32(members: &Vec<Member>, key: &str) -> (r: Option<Option<u32>>)
    ensures
        r == optional_u32(field_of(members_view(members@), key@)),
{
    match get_member(members, key) {
        None => Some(None),
        Some(Json::Null) => Some(None),
        Some(Json::Number(Number::PosInt(n))) => if *n <= 0xffff_ffffu64 {
            Some(Some(*n as u32))
        } else {
            None
        },
        _ => None,
    }
}

} // verus!

verus! {

/// A member with this key and value form.
pub open spec fn field(key: Seq<char>, value: JsonV) -> MemberV {
    MemberV { key, value }
}

/// A member with this key and a string value.
pub open spec fn str_field(key: Seq<char>, value: Seq<char>) -> MemberV {
    field(key, JsonV::Str(value))
}

/// One member when there is a value, none otherwise.
pub open spec fn opt_field(key: Seq<char>, value: Option<JsonV>) -> Seq<MemberV> {
    match value {
        Some(v) => seq![field(key, v)],
        None => Seq::empty(),
    }
}

/// How many members have a key that sorts before `key`: where a new key
/// goes among members kept in key order.
pub open spec fn key_rank(m: Seq<MemberV>, key: Seq<char>) -> int
    decreases m.len(),
{
    if m.len() == 0 {
        0
    } else {
        key_rank(m.drop_last(), key) + if text_precedes(m.last().key, key) {
            1int
        } else {
            0int
        }
    }
}

/// `key_rank` is a position of the members.
pub proof fn lemma_key_rank(m: Seq<MemberV>, key: Seq<char>)
    ensures
        0 <= key_rank(m, key) <= m.len(),
    decreases m.len(),
{
    if m.len() > 0 {
        lemma_key_rank(m.drop_last(), key);
    }
}

/// The members with `key` set to `value`, as a JSON object map sets it: the
/// member with the key takes the value in place, or a new member goes after
/// the members whose keys sort before it, which keeps members in key order.
pub open spec fn set_key(m: Seq<MemberV>, key: Seq<char>, value: JsonV) -> Seq<MemberV> {
    match find_key(m, key) {
        Some(i) => m.update(i, field(key, value)),
        None => m.insert(key_rank(m, key), field(key, value)),
    }
}

/// Inserting a member inserts its form.
pub proof fn lemma_members_view_insert(members: Seq<Member>, i: int, m: Member)
    requires
        0 <= i <= members.len(),
    ensures
        members_view(members.insert(i, m)) == members_view(members).insert(i, m@),
{
    lemma_members_view(members);
    lemma_members_view(members.insert(i, m));
    members.insert_ensures(i, m);
    members_view(members).insert_ensures(i, m@);
    assert forall|j: int| 0 <= j < members.len() + 1 implies #[trigger] members_view(members.insert(i, m))[j]
        == members_view(members).insert(i, m@)[j] by {
        if j > i {
            assert(members.insert(i, m)[(j - 1) + 1] == members[j - 1]);
            assert(members_view(members).insert(i, m@)[(j - 1) + 1] == members_view(members)[j - 1]);
        }
    }
    assert(members_view(members.insert(i, m)) =~= members_view(members).insert(i, m@));
}

/// Sets `key` to `value`, as a JSON object map does: the member with the key
/// takes the value in place, or a new member goes after the members whose
/// keys sort before it.
pub fn set_member(members: &mut Vec<Member>, key: &str, value: Json)
    ensures
        members_view(final(members)@) == set_key(members_view(old(members)@), key@, value@),
{
    broadcast use group_json_view;

    proof {
        lemma_find_view(members@, key@);
    }
    match position(members, key) {
        Some(i) => {
            let m = member(key, value);
            proof {
                lemma_members_view_update(members@, i as int, m);
            }
            members.set(i, m);
        },
        None => {
            let ghost v = members_view(members@);
            proof {
                lemma_members_view(members@);
            }
            let mut p: usize = 0;
            let mut i: usize = 0;
            while i < members.len()
                invariant
                    i <= members@.len(),
                    v == members_view(members@),
                    v.len() == members@.len(),
                    forall|j: int| 0 <= j < v.len() ==> #[trigger] v[j] == members@[j]@,
                    p as int == key_rank(v.take(i as int), key@),
                    p <= i,
                decreases members.len() - i,
            {
                proof {
                    assert(v.take(i as int + 1).drop_last() =~= v.take(i as int));
                    assert(v.take(i as int + 1).last() == members@[i as int]@);
                }
                if crate::text::precedes(members[i].key.as_str(), key) {
                    p = p + 1;
                }
                i = i + 1;
            }
            proof {
                assert(v.take(i as int) =~= v);
            }
            let m = member(key, value);
            proof {
                lemma_members_view_insert(members@, p as int, m);
            }
            members.insert(p, m);
        },
    }
}

/// Appends a member with a string value.
pub fn push_str(members: &mut Vec<Member>, key: &str, value: &str)
    ensures
        members_view(final(members)@) == members_view(old(members)@).push(str_field(key@, value@)),
{
    broadcast use group_json_view;

    members.push(member(key, string(value)));
}

/// Appends a member.
pub fn push_field(members: &mut Vec<Member>, key: &str, value: Json)
    ensures
        members_view(final(members)@) == members_view(old(members)@).push(field(key@, value@)),
{
    broadcast use group_json_view;

    members.push(member(key, value));
}

} // verus!

verus! {

#[verifier::external_type_specification]
#[verifier::external_body]
pub struct ExReaderValue(serde_json::Value);

/// What `serde_json::from_str::<serde_json::Value>` makes of a text: the value
/// it reads, or the text of the error it reports.
pub uninterp spec fn json_reading(text: Seq<char>) -> Result<JsonV, Seq<char>>;

/// A number the JSON reader built, in this crate's form. `serde_json` holds
/// a number as a `u64`, a negative `i64` or an `f64`; `as_u64` and `as_i64`
/// tell the three apart, and an `f64` is taken as the text it writes.
#[verifier::external_body]
fn from_reader_number(n: &serde_json::Value) -> Number {
    match (n.as_u64(), n.as_i64()) {
        (Some(u), _) => Number::PosInt(u),
        (None, Some(i)) => Number::NegInt(i),
        (None, None) => Number::Float(n.to_string()),
    }
}

/// A value the JSON reader built, in this crate's form, node for node, each
/// object's members in the reader's order.
#[verifier::external_body]
fn from_reader_value(v: serde_json::Value) -> Json {
    match v {
        serde_json::Value::Null => Json::Null,
        serde_json::Value::Bool(b) => Json::Bool(b),
        serde_json::Value::Number(_) => Json::Number(from_reader_number(&v)),
        serde_json::Value::String(s) => Json::Str(s),
        serde_json::Value::Array(a) => Json::Array(a.into_iter().map(from_reader_value).collect()),
        serde_json::Value::Object(o) => Json::Object(
            o.into_iter().map(|(key, value)| Member { key, value: from_reader_value(value) }).collect(),
        ),
    }
}

/// Reads a JSON text.
///
/// Calls `serde_json::from_str::<serde_json::Value>`; the result is what that
/// function reads, or the text of the error it reports. What it reads is
/// taken over node for node.
#[verifier::external_body]
pub(crate) fn read_json(text: &str) -> (r: Result<Json, String>)
    ensures
        match r {
            Ok(j) => json_reading(text@) == Ok::<JsonV, Seq<char>>(j@),
            Err(e) => json_reading(text@) == Err::<JsonV, Seq<char>>(e@),
        },
{
    match serde_json::from_str::<serde_json::Value>(text) {
        Ok(v) => Ok(from_reader_value(v)),
        Err(e) => Err(e.to_string()),
    }
}

} // verus!
