use vstd::prelude::*;

verus! {

/// A JSON document held as plain values. Numbers keep their decimal text.
pub enum Json {
    Null,
    Bool(bool),
    Num(String),
    Str(String),
    Arr(Vec<Json>),
    Obj(Vec<(String, Json)>),
}

/// The mathematical model of a JSON document.
pub enum JsonV {
    Null,
    Bool(bool),
    Num(Seq<char>),
    Str(Seq<char>),
    Arr(Seq<JsonV>),
    Obj(Seq<(Seq<char>, JsonV)>),
}

pub open spec fn jv(j: Json) -> JsonV
    decreases j,
{
    match j {
        Json::Null => JsonV::Null,
        Json::Bool(b) => JsonV::Bool(b),
        Json::Num(s) => JsonV::Num(s@),
        Json::Str(s) => JsonV::Str(s@),
        Json::Arr(a) => JsonV::Arr(items_view(a@)),
        Json::Obj(m) => JsonV::Obj(entries_view(m@)),
    }
}

pub open spec fn items_view(a: Seq<Json>) -> Seq<JsonV>
    decreases a,
{
    if a.len() == 0 {
        Seq::empty()
    } else {
        items_view(a.drop_last()).push(jv(a.last()))
    }
}

pub open spec fn entries_view(m: Seq<(String, Json)>) -> Seq<(Seq<char>, JsonV)>
    decreases m,
{
    if m.len() == 0 {
        Seq::empty()
    } else {
        entries_view(m.drop_last()).push((m.last().0@, jv(m.last().1)))
    }
}

impl View for Json {
    type V = JsonV;

    open spec fn view(&self) -> JsonV {
        jv(*self)
    }
}

pub open spec fn opt_view(o: Option<Json>) -> Option<JsonV> {
    match o {
        Some(j) => Some(j@),
        None => None,
    }
}

/// Value of the first entry at or after `i` whose key is `k`.
pub open spec fn lookup_from(m: Seq<(Seq<char>, JsonV)>, k: Seq<char>, i: int) -> Option<JsonV>
    decreases m.len() - i,
{
    if i < 0 || i >= m.len() {
        None
    } else if m[i].0 == k {
        Some(m[i].1)
    } else {
        lookup_from(m, k, i + 1)
    }
}

/// The member `k` of an object; nothing for any other kind of value.
pub open spec fn field(j: JsonV, k: Seq<char>) -> Option<JsonV> {
    match j {
        JsonV::Obj(m) => lookup_from(m, k, 0),
        _ => None,
    }
}

pub open spec fn has(j: JsonV, k: Seq<char>) -> bool {
    field(j, k) is Some
}

/// The text of a string value.
pub open spec fn text_of(j: Option<JsonV>) -> Option<Seq<char>> {
    match j {
        Some(JsonV::Str(s)) => Some(s),
        _ => None,
    }
}

/// `field` followed by `text_of`.
pub open spec fn str_field(j: JsonV, k: Seq<char>) -> Option<Seq<char>> {
    text_of(field(j, k))
}

pub proof fn lemma_entries_view(m: Seq<(String, Json)>)
    ensures
        entries_view(m).len() == m.len(),
        forall|i: int| 0 <= i < m.len() ==> #[trigger] entries_view(m)[i] == (m[i].0@, jv(m[i].1)),
    decreases m.len(),
{
    if m.len() > 0 {
        lemma_entries_view(m.drop_last());
    }
}

pub proof fn lemma_items_view(a: Seq<Json>)
    ensures
        items_view(a).len() == a.len(),
        forall|i: int| 0 <= i < a.len() ==> #[trigger] items_view(a)[i] == jv(a[i]),
    decreases a.len(),
{
    if a.len() > 0 {
        lemma_items_view(a.drop_last());
    }
}

pub fn str_eq(a: &str, b: &str) -> (r: bool)
    ensures
        r == (a@ == b@),
{
    let n = a.unicode_len();
    if n != b.unicode_len() {
        return false;
    }
    let mut i: usize = 0;
    while i < n
        invariant
            n == a@.len(),
            n == b@.len(),
            i <= n,
            forall|j: int| 0 <= j < i ==> a@[j] == b@[j],
        decreases n - i,
    {
        if a.get_char(i) != b.get_char(i) {
            return false;
        }
        i = i + 1;
    }
    assert(a@ =~= b@);
    true
}

impl Json {
    /// The member `k` of an object, taken out of it.
    pub fn take(self, k: &str) -> (r: Option<Json>)
        ensures
            opt_view(r) == field(self@, k@),
    {
        match self {
            Json::Obj(m) => {
                let mut m = m;
                let ghost m0 = m@;
                proof {
                    lemma_entries_view(m0);
                }
                let mut i: usize = 0;
                while i < m.len()
                    invariant
                        m@ == m0,
                        entries_view(m0).len() == m0.len(),
                        forall|j: int| 0 <= j < m0.len() ==> #[trigger] entries_view(m0)[j] == (m0[j].0@, jv(m0[j].1)),
                        field(self@, k@) == lookup_from(entries_view(m0), k@, 0),
                        i <= m@.len(),
                        lookup_from(entries_view(m0), k@, 0) == lookup_from(entries_view(m0), k@, i as int),
                    decreases m@.len() - i,
                {
                    if str_eq(m[i].0.as_str(), k) {
                        assert(entries_view(m0)[i as int] == (m0[i as int].0@, jv(m0[i as int].1)));
                        assert(lookup_from(entries_view(m0), k@, i as int) == Some(jv(m0[i as int].1)));
                        let e = m.remove(i);
                        return Some(e.1);
                    }
                    assert(entries_view(m0)[i as int] == (m0[i as int].0@, jv(m0[i as int].1)));
                    i = i + 1;
                }
                None
            },
            _ => None,
        }
    }

    /// The members `k1`, `k2` and `k3` of an object, taken out of it.
    pub fn take3(self, k1: &str, k2: &str, k3: &str) -> (r: (Option<Json>, Option<Json>, Option<Json>))
        requires
            k1@ != k2@,
            k1@ != k3@,
            k2@ != k3@,
        ensures
            opt_view(r.0) == field(self@, k1@),
            opt_view(r.1) == field(self@, k2@),
            opt_view(r.2) == field(self@, k3@),
    {
        match self {
            Json::Obj(m) => {
                let mut m = m;
                let ghost m0 = m@;
                let ghost e0 = entries_view(m0);
                proof {
                    lemma_entries_view(m0);
                }
                let mut r1: Option<Json> = None;
                let mut r2: Option<Json> = None;
                let mut r3: Option<Json> = None;
                while m.len() > 0
                    invariant
                        m@ == m0.subrange(0, m@.len() as int),
                        m@.len() <= m0.len(),
                        e0 == entries_view(m0),
                        e0.len() == m0.len(),
                        forall|j: int| 0 <= j < m0.len() ==> #[trigger] e0[j] == (m0[j].0@, jv(m0[j].1)),
                        field(self@, k1@) == lookup_from(e0, k1@, 0),
                        field(self@, k2@) == lookup_from(e0, k2@, 0),
                        field(self@, k3@) == lookup_from(e0, k3@, 0),
                        opt_view(r1) == lookup_from(e0, k1@, m@.len() as int),
                        opt_view(r2) == lookup_from(e0, k2@, m@.len() as int),
                        opt_view(r3) == lookup_from(e0, k3@, m@.len() as int),
                        k1@ != k2@,
                        k1@ != k3@,
                        k2@ != k3@,
                    decreases m@.len(),
                {
                    let ghost n = m@.len() - 1;
                    let e = m.pop().unwrap();
                    assert(e == m0[n]);
                    assert(m@ =~= m0.subrange(0, n));
                    let (k, v) = e;
                    if str_eq(k.as_str(), k1) {
                        r1 = Some(v);
                    } else if str_eq(k.as_str(), k2) {
                        r2 = Some(v);
                    } else if str_eq(k.as_str(), k3) {
                        r3 = Some(v);
                    }
                }
                (r1, r2, r3)
            },
            _ => (None, None, None),
        }
    }

    /// The member `k` of an object, if present.
    pub fn get(&self, k: &str) -> (r: Option<&Json>)
        ensures
            match r {
                Some(v) => field(self@, k@) == Some(v@),
                None => field(self@, k@) is None,
            },
    {
        match self {
            Json::Obj(m) => {
                proof {
                    lemma_entries_view(m@);
                }
                let mut i: usize = 0;
                while i < m.len()
                    invariant
                        entries_view(m@).len() == m@.len(),
                        forall|j: int| 0 <= j < m@.len() ==> #[trigger] entries_view(m@)[j] == (m@[j].0@, jv(m@[j].1)),
                        field(self@, k@) == lookup_from(entries_view(m@), k@, 0),
                        i <= m@.len(),
                        lookup_from(entries_view(m@), k@, 0) == lookup_from(entries_view(m@), k@, i as int),
                    decreases m@.len() - i,
                {
                    if str_eq(m[i].0.as_str(), k) {
                        assert(entries_view(m@)[i as int] == (m@[i as int].0@, jv(m@[i as int].1)));
                        assert(lookup_from(entries_view(m@), k@, i as int) == Some(jv(m@[i as int].1)));
                        return Some(&m[i].1);
                    }
                    assert(entries_view(m@)[i as int] == (m@[i as int].0@, jv(m@[i as int].1)));
                    i = i + 1;
                }
                None
            },
            _ => None,
        }
    }

    pub fn has(&self, k: &str) -> (r: bool)
        ensures
            r == has(self@, k@),
    {
        self.get(k).is_some()
    }

    /// The text of a string member `k`, if there is one.
    pub fn get_str(&self, k: &str) -> (r: Option<&String>)
        ensures
            match r {
                Some(s) => str_field(self@, k@) == Some(s@),
                None => str_field(self@, k@) is None,
            },
    {
        match self.get(k) {
            Some(Json::Str(s)) => Some(s),
            _ => None,
        }
    }
}

} // verus!
