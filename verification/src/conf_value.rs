use vstd::prelude::*;
use vstd::string::*;

verus! {

/// The JSON text of a string, as `json::stringify` gives it: the string in
/// double quotes, with the characters escaped that JSON wants escaped.
pub uninterp spec fn json_string_text(s: Seq<char>) -> Seq<char>;

/// The JSON text of a number, as `json::stringify` gives it.
pub uninterp spec fn json_number_text(n: u64) -> Seq<char>;

/// Calls `json::stringify` on a string, which writes it as a JSON string
/// literal. The contract only names the result: it is a function of the argument.
#[verifier::external_body]
fn json_string(s: &str) -> (res: String)
    ensures
        res@ == json_string_text(s@),
{
    json::stringify(s)
}

/// Calls `json::stringify` on an unsigned number, which writes it as a JSON
/// number. The contract only names the result: it is a function of the argument.
#[verifier::external_body]
fn json_number(n: u64) -> (res: String)
    ensures
        res@ == json_number_text(n),
{
    json::stringify(n)
}

/// A value of a configuration document.
#[derive(Debug, PartialEq, Eq)]
pub enum ConfValue {
    Text(String),
    Number(u64),
    List(Vec<ConfValue>),
    /// Members, in order.
    Object(Vec<(String, ConfValue)>),
}

/// Mathematical value of a configuration value.
pub enum ConfSpec {
    Text(Seq<char>),
    Number(u64),
    List(Seq<ConfSpec>),
    Object(Seq<(Seq<char>, ConfSpec)>),
}

impl ConfValue {
    /// The mathematical value of this configuration value.
    pub open spec fn model(&self) -> ConfSpec
        decreases self,
    {
        match self {
            ConfValue::Text(s) => ConfSpec::Text(s@),
            ConfValue::Number(n) => ConfSpec::Number(*n),
            ConfValue::List(items) => ConfSpec::List(
                Seq::new(
                    items@.len(),
                    |i: int|
                        if 0 <= i < items@.len() {
                            items[i].model()
                        } else {
                            ConfSpec::Number(0)
                        },
                ),
            ),
            ConfValue::Object(members) => ConfSpec::Object(
                Seq::new(
                    members@.len(),
                    |i: int|
                        if 0 <= i < members@.len() {
                            (members[i].0@, members[i].1.model())
                        } else {
                            (Seq::empty(), ConfSpec::Number(0))
                        },
                ),
            ),
        }
    }
}

impl View for ConfValue {
    type V = ConfSpec;

    open spec fn view(&self) -> ConfSpec {
        self.model()
    }
}

/// The values of the members of an object under construction.
pub open spec fn members_model(members: Seq<(String, ConfValue)>) -> Seq<(Seq<char>, ConfSpec)> {
    members.map_values(|m: (String, ConfValue)| (m.0@, m.1@))
}

/// The values of the items of a list under construction.
pub open spec fn items_model(items: Seq<ConfValue>) -> Seq<ConfSpec> {
    items.map_values(|v: ConfValue| v@)
}

/// The keys of the members of an object, in order.
pub open spec fn member_keys(members: Seq<(Seq<char>, ConfSpec)>) -> Seq<Seq<char>> {
    members.map_values(|m: (Seq<char>, ConfSpec)| m.0)
}

/// The members of an object after `key` has been set to `value`: the value
/// takes the place of the one that the key had, else the member comes last.
pub open spec fn spec_set_member(
    members: Seq<(Seq<char>, ConfSpec)>,
    key: Seq<char>,
    value: ConfSpec,
) -> Seq<(Seq<char>, ConfSpec)> {
    match member_keys(members).index_of_first(key) {
        Some(i) => members.update(i, (key, value)),
        None => members.push((key, value)),
    }
}

/// The compact JSON text of a configuration value: strings and numbers as the
/// JSON library writes them, the items of a list in square brackets and the
/// members of an object in braces, separated by commas, with a colon between a
/// member's key and its value, and no white space.
pub open spec fn spec_render(v: ConfSpec) -> Seq<char>
    decreases v, 0nat,
{
    match v {
        ConfSpec::Text(s) => json_string_text(s),
        ConfSpec::Number(n) => json_number_text(n),
        ConfSpec::List(items) => "["@ + spec_render_items(items, items.len()) + "]"@,
        ConfSpec::Object(members) => "{"@ + spec_render_members(members, members.len()) + "}"@,
    }
}

/// The texts of the first `k` items of a list, separated by commas.
pub open spec fn spec_render_items(items: Seq<ConfSpec>, k: nat) -> Seq<char>
    decreases items, k,
{
    if k == 0 || k > items.len() {
        Seq::empty()
    } else if k == 1 {
        spec_render(items[0])
    } else {
        spec_render_items(items, (k - 1) as nat) + ","@ + spec_render(items[k - 1])
    }
}

/// The texts of the first `k` members of an object, separated by commas.
pub open spec fn spec_render_members(members: Seq<(Seq<char>, ConfSpec)>, k: nat) -> Seq<char>
    decreases members, k,
{
    if k == 0 || k > members.len() {
        Seq::empty()
    } else if k == 1 {
        json_string_text(members[0].0) + ":"@ + spec_render(members[0].1)
    } else {
        spec_render_members(members, (k - 1) as nat) + ","@ + json_string_text(members[k - 1].0)
            + ":"@ + spec_render(members[k - 1].1)
    }
}

/// Sets `key` to `value` among the members of an object.
pub fn set_member(members: &mut Vec<(String, ConfValue)>, key: String, value: ConfValue)
    ensures
        members_model(final(members)@) == spec_set_member(
            members_model(old(members)@),
            key@,
            value@,
        ),
{
    let ghost before = members_model(members@);
    let ghost keys = member_keys(before);
    proof {
        keys.index_of_first_ensures(key@);
    }
    let mut i: usize = 0;
    while i < members.len()
        invariant
            i <= members.len(),
            members@ == old(members)@,
            before == members_model(members@),
            keys == member_keys(before),
            forall|j: int| 0 <= j < i ==> keys[j] != key@,
        decreases members.len() - i,
    {
        if members[i].0 == key {
            proof {
                assert(keys[i as int] == key@);
                keys.index_of_first_ensures(key@);
            }
            let ghost k = key@;
            let ghost v = value@;
            members.set(i, (key, value));
            assert(members_model(members@) =~= before.update(i as int, (k, v)));
            return ;
        }
        i += 1;
    }
    let ghost k = key@;
    let ghost v = value@;
    members.push((key, value));
    assert(members_model(members@) =~= before.push((k, v)));
}

impl ConfValue {
    /// The compact JSON text of this value.
    pub fn render(&self) -> (res: String)
        ensures
            res@ == spec_render(self@),
        decreases self,
    {
        match self {
            ConfValue::Text(s) => json_string(s.as_str()),
            ConfValue::Number(n) => json_number(*n),
            ConfValue::List(items) => {
                let ghost models = self@->List_0;
                let mut out = "[".to_owned();
                let mut k: usize = 0;
                while k < items.len()
                    invariant
                        k <= items.len(),
                        self@ == ConfSpec::List(models),
                        models.len() == items.len(),
                        forall|i: int| 0 <= i < items.len() ==> models[i] == items[i]@,
                        forall|i: int| 0 <= i < items.len() ==> decreases_to!(self => items[i]),
                        out@ == "["@ + spec_render_items(models, k as nat),
                    decreases items.len() - k,
                {
                    if k > 0 {
                        out.append(",");
                    }
                    let item = items[k].render();
                    out.append(item.as_str());
                    assert(out@ =~= "["@ + spec_render_items(models, (k + 1) as nat));
                    k += 1;
                }
                out.append("]");
                out
            },
            ConfValue::Object(members) => {
                let ghost models = self@->Object_0;
                let mut out = "{".to_owned();
                let mut k: usize = 0;
                while k < members.len()
                    invariant
                        k <= members.len(),
                        self@ == ConfSpec::Object(models),
                        models.len() == members.len(),
                        forall|i: int|
                            0 <= i < members.len() ==> models[i] == (
                                members[i].0@,
                                members[i].1@,
                            ),
                        forall|i: int|
                            0 <= i < members.len() ==> decreases_to!(self => members[i].1),
                        out@ == "{"@ + spec_render_members(models, k as nat),
                    decreases members.len() - k,
                {
                    if k > 0 {
                        out.append(",");
                    }
                    let key = json_string(members[k].0.as_str());
                    out.append(key.as_str());
                    out.append(":");
                    let value = members[k].1.render();
                    out.append(value.as_str());
                    assert(out@ =~= "{"@ + spec_render_members(models, (k + 1) as nat));
                    k += 1;
                }
                out.append("}");
                out
            },
        }
    }
}

} // verus!
