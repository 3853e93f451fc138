use vstd::prelude::*;

verus! {

/// A JSON value as the envelopes carry it.
///
/// A number keeps its decimal text, so that no arithmetic is ever done on it
/// and it leaves the manager exactly as it came in. An object keeps its
/// members in the order in which they were written.
#[derive(Debug, PartialEq, Eq)]
pub enum Json {
    Null,
    Bool(bool),
    Number(String),
    Str(String),
    Array(Vec<Json>),
    Object(Vec<(String, Json)>),
}

/// The mathematical value of a [`Json`].
pub ghost enum JsonModel {
    Null,
    Bool(bool),
    Number(Seq<char>),
    Str(Seq<char>),
    Array(Seq<JsonModel>),
    Object(Seq<(Seq<char>, JsonModel)>),
}

/// The value that `j` stands for.
pub open spec fn json_model(j: Json) -> JsonModel
    decreases j,
{
    match j {
        Json::Null => JsonModel::Null,
        Json::Bool(b) => JsonModel::Bool(b),
        Json::Number(text) => JsonModel::Number(text@),
        Json::Str(text) => JsonModel::Str(text@),
        Json::Array(items) => JsonModel::Array(
            Seq::new(
                items@.len(),
                |i: int|
                    if 0 <= i < items@.len() {
                        json_model(items@[i])
                    } else {
                        JsonModel::Null
                    },
            ),
        ),
        Json::Object(members) => JsonModel::Object(
            Seq::new(
                members@.len(),
                |i: int|
                    if 0 <= i < members@.len() {
                        (members@[i].0@, json_model(members@[i].1))
                    } else {
                        (Seq::<char>::empty(), JsonModel::Null)
                    },
            ),
        ),
    }
}

/// The first member of `members` whose key is `key`, if there is one.
pub open spec fn member_index(members: Seq<(Seq<char>, JsonModel)>, key: Seq<char>) -> Option<int>
    decreases members.len(),
{
    if members.len() == 0 {
        None
    } else if members[0].0 == key {
        Some(0)
    } else {
        match member_index(members.subrange(1, members.len() as int), key) {
            Some(i) => Some(i + 1),
            None => None,
        }
    }
}

/// `member_index` finds the first member with the key, and none where no member has it.
pub proof fn lemma_member_index(members: Seq<(Seq<char>, JsonModel)>, key: Seq<char>)
    ensures
        match member_index(members, key) {
            Some(i) => {
                &&& 0 <= i < members.len()
                &&& members[i].0 == key
                &&& forall|j: int| 0 <= j < i ==> members[j].0 != key
            },
            None => forall|j: int| 0 <= j < members.len() ==> members[j].0 != key,
        },
    decreases members.len(),
{
    if members.len() == 0 {
    } else if members[0].0 == key {
    } else {
        let rest = members.subrange(1, members.len() as int);
        lemma_member_index(rest, key);
        assert(forall|j: int| 0 <= j < rest.len() ==> rest[j] == members[j + 1]);
        match member_index(rest, key) {
            Some(i) => {
                assert forall|j: int| 0 <= j < i + 1 implies members[j].0 != key by {
                    if j > 0 {
                        assert(rest[j - 1].0 != key);
                    }
                }
            },
            None => {
                assert forall|j: int| 0 <= j < members.len() implies members[j].0 != key by {
                    if j > 0 {
                        assert(rest[j - 1].0 != key);
                    }
                }
            },
        }
    }
}

/// The texts of those of `items` that are strings, in their order.
pub open spec fn string_items(items: Seq<JsonModel>) -> Seq<Seq<char>>
    decreases items.len(),
{
    if items.len() == 0 {
        Seq::empty()
    } else {
        let before = string_items(items.drop_last());
        match items.last() {
            JsonModel::Str(text) => before.push(text),
            _ => before,
        }
    }
}

impl JsonModel {
    /// The text of a string; `None` for every other kind of value.
    pub open spec fn as_str(self) -> Option<Seq<char>> {
        match self {
            JsonModel::Str(text) => Some(text),
            _ => None,
        }
    }

    /// The items of an array; `None` for every other kind of value.
    pub open spec fn as_array(self) -> Option<Seq<JsonModel>> {
        match self {
            JsonModel::Array(items) => Some(items),
            _ => None,
        }
    }

    /// The value of the first member under `key`; `None` where no member has
    /// the key or the value is no object.
    pub open spec fn get(self, key: Seq<char>) -> Option<JsonModel> {
        match self {
            JsonModel::Object(members) => match member_index(members, key) {
                Some(i) => Some(members[i].1),
                None => None,
            },
            _ => None,
        }
    }

    /// The object with the one member `key`.
    pub open spec fn object1(key: Seq<char>, value: JsonModel) -> JsonModel {
        JsonModel::Object(seq![(key, value)])
    }

    /// The array of the strings `texts`.
    pub open spec fn strings(texts: Seq<Seq<char>>) -> JsonModel {
        JsonModel::Array(Seq::new(texts.len(), |i: int| JsonModel::Str(texts[i])))
    }
}

impl DeepView for Json {
    type V = JsonModel;

    open spec fn deep_view(&self) -> JsonModel {
        json_model(*self)
    }
}

impl Clone for Json {
    /// A copy that stands for the same value.
    fn clone(&self) -> (r: Json)
        ensures
            r.deep_view() == self.deep_view(),
        decreases self,
    {
        match self {
            Json::Null => Json::Null,
            Json::Bool(b) => Json::Bool(*b),
            Json::Number(text) => Json::Number(text.clone()),
            Json::Str(text) => Json::Str(text.clone()),
            Json::Array(items) => {
                let mut copy: Vec<Json> = Vec::new();
                let mut i: usize = 0;
                while i < items.len()
                    invariant
                        i <= items.len(),
                        copy.len() == i,
                        *self is Array && self->Array_0 == *items,
                        forall|k: int| 0 <= k < i ==> json_model(copy@[k]) == json_model(items@[k]),
                    decreases items.len() - i,
                {
                    assert(decreases_to!(self->Array_0 => items[i as int]));
                    let item = items[i].clone();
                    copy.push(item);
                    i += 1;
                }
                let r = Json::Array(copy);
                assert(json_model(r)->Array_0 =~= json_model(*self)->Array_0);
                r
            },
            Json::Object(members) => {
                let mut copy: Vec<(String, Json)> = Vec::new();
                let mut i: usize = 0;
                while i < members.len()
                    invariant
                        i <= members.len(),
                        copy.len() == i,
                        *self is Object && self->Object_0 == *members,
                        forall|k: int|
                            0 <= k < i ==> copy@[k].0@ == members@[k].0@ && json_model(copy@[k].1)
                                == json_model(members@[k].1),
                    decreases members.len() - i,
                {
                    assert(decreases_to!(self->Object_0 => members[i as int]));
                    let key = members[i].0.clone();
                    let value = members[i].1.clone();
                    copy.push((key, value));
                    i += 1;
                }
                let r = Json::Object(copy);
                assert(json_model(r)->Object_0 =~= json_model(*self)->Object_0);
                r
            },
        }
    }
}

impl Json {
    /// The text of a JSON string; `None` for every other kind of value.
    pub fn as_str(&self) -> (r: Option<&String>)
        ensures
            r.deep_view() == self.deep_view().as_str(),
    {
        match self {
            Json::Str(text) => Some(text),
            _ => None,
        }
    }

    /// Whether the value is a JSON string.
    pub fn is_string(&self) -> (r: bool)
        ensures
            r == (self.deep_view() is Str),
    {
        match self {
            Json::Str(_) => true,
            _ => false,
        }
    }

    /// Whether the value is `null`.
    pub fn is_null(&self) -> (r: bool)
        ensures
            r == (self.deep_view() is Null),
    {
        match self {
            Json::Null => true,
            _ => false,
        }
    }

    /// The items of a JSON array; `None` for every other kind of value.
    pub fn as_array(&self) -> (r: Option<&Vec<Json>>)
        ensures
            r.deep_view() == self.deep_view().as_array(),
    {
        match self {
            Json::Array(items) => {
                assert(items.deep_view() =~= json_model(*self)->Array_0);
                Some(items)
            },
            _ => None,
        }
    }

    /// The value under `key` in a JSON object: that of the first member with
    /// that key. `None` where no member has it or the value is no object.
    pub fn get(&self, key: &str) -> (r: Option<&Json>)
        ensures
            r.deep_view() == self.deep_view().get(key@),
    {
        match self {
            Json::Object(members) => {
                let wanted = key.to_owned();
                let ghost model = json_model(*self)->Object_0;
                let mut i: usize = 0;
                while i < members.len()
                    invariant
                        i <= members.len(),
                        wanted@ == key@,
                        *self is Object && self->Object_0 == *members,
                        model == json_model(*self)->Object_0,
                        forall|j: int| 0 <= j < i ==> model[j].0 != key@,
                    decreases members.len() - i,
                {
                    if members[i].0 == wanted {
                        proof {
                            lemma_member_index(model, key@);
                            assert(model[i as int].0 == key@);
                            assert(model[i as int].1 == json_model(members@[i as int].1));
                        }
                        return Some(&members[i].1);
                    }
                    i += 1;
                }
                proof {
                    lemma_member_index(model, key@);
                }
                None
            },
            _ => None,
        }
    }

    /// A JSON object with the one member `key`.
    pub fn object1(key: &str, value: Json) -> (r: Json)
        ensures
            r.deep_view() == JsonModel::object1(key@, value.deep_view()),
    {
        let mut members: Vec<(String, Json)> = Vec::new();
        members.push((key.to_owned(), value));
        let r = Json::Object(members);
        assert(json_model(r)->Object_0 =~= JsonModel::object1(key@, value.deep_view())->Object_0);
        r
    }

    /// A JSON array of strings with the texts of `texts`, in their order.
    pub fn from_strings(texts: &Vec<String>) -> (r: Json)
        ensures
            r.deep_view() == JsonModel::strings(texts.deep_view()),
    {
        let mut items: Vec<Json> = Vec::new();
        let mut i: usize = 0;
        while i < texts.len()
            invariant
                i <= texts.len(),
                items.len() == i,
                forall|k: int| 0 <= k < i ==> items@[k] == Json::Str(texts@[k]),
            decreases texts.len() - i,
        {
            items.push(Json::Str(texts[i].clone()));
            i += 1;
        }
        let r = Json::Array(items);
        reveal_with_fuel(json_model, 2);
        assert(json_model(r)->Array_0 =~= JsonModel::strings(texts.deep_view())->Array_0);
        r
    }

    /// The texts of those items of `items` that are strings, in their order.
    pub fn collect_strings(items: &Vec<Json>) -> (r: Vec<String>)
        ensures
            r.deep_view() == string_items(items.deep_view()),
    {
        let mut texts: Vec<String> = Vec::new();
        let mut i: usize = 0;
        assert(items.deep_view().subrange(0, 0) =~= Seq::empty());
        while i < items.len()
            invariant
                i <= items.len(),
                texts.deep_view() == string_items(items.deep_view().subrange(0, i as int)),
            decreases items.len() - i,
        {
            let ghost before = texts.deep_view();
            assert(items.deep_view().subrange(0, i + 1).drop_last() =~= items.deep_view().subrange(
                0,
                i as int,
            ));
            match &items[i] {
                Json::Str(text) => {
                    texts.push(text.clone());
                    assert(texts.deep_view() =~= before.push(text@));
                },
                _ => {},
            }
            i += 1;
        }
        assert(items.deep_view().subrange(0, i as int) =~= items.deep_view());
        texts
    }
}

} // verus!
