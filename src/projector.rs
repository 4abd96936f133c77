use vstd::prelude::*;
use crate::json::{Json, JsonV, field, str_field, lookup_from, opt_view, items_view, entries_view, lemma_items_view, lemma_entries_view, str_eq};

verus! {

/// Background used when a style gives none.
pub open spec fn default_background() -> Seq<char> {
    "#129ADA"@
}

pub open spec fn str_opt(s: Option<&str>) -> Option<Seq<char>> {
    match s {
        Some(t) => Some(t@),
        None => None,
    }
}

/// Index of the first screen at or after `i` whose `id` is `id`.
pub open spec fn first_with_id(xs: Seq<JsonV>, id: Seq<char>, i: int) -> Option<int>
    decreases xs.len() - i,
{
    if i < 0 || i >= xs.len() {
        None
    } else if str_field(xs[i], "id"@) == Some(id) {
        Some(i)
    } else {
        first_with_id(xs, id, i + 1)
    }
}

/// The screen picked: the first one with the requested `id`, else the first one.
pub open spec fn screen_index(xs: Seq<JsonV>, id: Option<Seq<char>>) -> int {
    match id {
        Some(x) => match first_with_id(xs, x, 0) {
            Some(i) => i,
            None => 0,
        },
        None => 0,
    }
}

/// The root container a style's screen becomes.
pub open spec fn root_of(bg: Seq<char>, children: JsonV) -> JsonV {
    JsonV::Obj(
        seq![
            ("type"@, JsonV::Str("column"@)),
            ("background"@, JsonV::Str(bg)),
            ("padding"@, JsonV::Num("24"@)),
            ("gap"@, JsonV::Num("12"@)),
            ("children"@, children),
        ],
    )
}

pub open spec fn background_of(style: JsonV) -> Seq<char> {
    match str_field(style, "background"@) {
        Some(b) => b,
        None => default_background(),
    }
}

pub open spec fn children_of(screen: JsonV) -> JsonV {
    match field(screen, "children"@) {
        Some(c) => c,
        None => JsonV::Arr(Seq::empty()),
    }
}

/// The layout built from a style and the screen picked from it.
pub open spec fn layout_from(style: JsonV, screen: JsonV) -> JsonV {
    let bg = background_of(style);
    let base = seq![("background"@, JsonV::Str(bg)), ("root"@, root_of(bg, children_of(screen)))];
    let with_cd = match field(style, "customer_display"@) {
        Some(cd) => base.push(("customer_display"@, cd)),
        None => base,
    };
    JsonV::Obj(
        match field(style, "logo"@) {
            Some(lg) => match str_field(lg, "base64"@) {
                Some(b) => with_cd.push(("__style_logo_base64"@, JsonV::Str(b))).push(("__style_logo_meta"@, lg)),
                None => with_cd,
            },
            None => with_cd,
        },
    )
}

/// The layout a style projects to, or nothing when it has no screen to pick.
pub open spec fn project(style: JsonV, id: Option<Seq<char>>) -> Option<JsonV> {
    match field(style, "screens"@) {
        Some(JsonV::Arr(xs)) => if xs.len() == 0 {
            None
        } else {
            Some(layout_from(style, xs[screen_index(xs, id)]))
        },
        _ => None,
    }
}

fn pick_screen(xs: &Vec<Json>, id: Option<&str>) -> (r: usize)
    requires
        xs@.len() > 0,
    ensures
        r < xs@.len(),
        r as int == screen_index(items_view(xs@), str_opt(id)),
{
    proof {
        lemma_items_view(xs@);
    }
    let ghost v = items_view(xs@);
    match id {
        None => 0,
        Some(x) => {
            let mut i: usize = 0;
            while i < xs.len()
                invariant
                    v == items_view(xs@),
                    str_opt(id) == Some(x@),
                    v.len() == xs@.len(),
                    forall|j: int| 0 <= j < xs@.len() ==> #[trigger] v[j] == xs@[j]@,
                    i <= xs@.len(),
                    first_with_id(v, x@, 0) == first_with_id(v, x@, i as int),
                decreases xs@.len() - i,
            {
                let hit = match xs[i].get_str("id") {
                    Some(s) => str_eq(s.as_str(), x),
                    None => false,
                };
                assert(v[i as int] == xs@[i as int]@);
                if hit {
                    assert(str_field(v[i as int], "id"@) == Some(x@));
                    assert(first_with_id(v, x@, i as int) == Some(i as int));
                    return i;
                }
                i = i + 1;
            }
            0
        },
    }
}

/// Projects a style onto one of its screens: the one whose `id` is `screen_id`,
/// else the first. Nothing when the style has no non-empty `screens` array.
pub fn style_to_layout(style: Json, screen_id: Option<&str>) -> (r: Option<Json>)
    ensures
        opt_view(r) == project(style@, str_opt(screen_id)),
{
    let bg = match style.get_str("background") {
        Some(b) => b.clone(),
        None => "#129ADA".to_owned(),
    };
    let logo_b64: Option<String> = match style.get("logo") {
        Some(l) => match l.get_str("base64") {
            Some(b) => Some(b.clone()),
            None => None,
        },
        None => None,
    };
    let ghost sv = style@;
    proof {
        reveal_strlit("screens");
        reveal_strlit("customer_display");
        reveal_strlit("logo");
        assert("screens"@.len() != "customer_display"@.len());
        assert("screens"@.len() != "logo"@.len());
        assert("customer_display"@.len() != "logo"@.len());
    }
    let (screens, cd, logo) = style.take3("screens", "customer_display", "logo");
    let mut xs = match screens {
        Some(Json::Arr(xs)) => xs,
        _ => return None,
    };
    if xs.len() == 0 {
        return None;
    }
    let idx = pick_screen(&xs, screen_id);
    proof {
        lemma_items_view(xs@);
    }
    let ghost xv = items_view(xs@);
    let screen = xs.remove(idx);
    let ghost scv = screen@;
    assert(scv == xv[idx as int]);
    let children = match screen.take("children") {
        Some(c) => c,
        None => Json::Arr(Vec::new()),
    };
    assert(children@ == children_of(scv)) by {
        assert(items_view(Seq::<Json>::empty()) =~= Seq::<JsonV>::empty());
    }
    let mut root: Vec<(String, Json)> = Vec::new();
    root.push(("type".to_owned(), Json::Str("column".to_owned())));
    root.push(("background".to_owned(), Json::Str(bg.clone())));
    root.push(("padding".to_owned(), Json::Num("24".to_owned())));
    root.push(("gap".to_owned(), Json::Num("12".to_owned())));
    root.push(("children".to_owned(), children));
    proof {
        lemma_entries_view(root@);
        assert(entries_view(root@) =~= seq![
                ("type"@, JsonV::Str("column"@)),
                ("background"@, JsonV::Str(bg@)),
                ("padding"@, JsonV::Num("24"@)),
                ("gap"@, JsonV::Num("12"@)),
                ("children"@, children_of(scv)),
            ]);
    }
    let root = Json::Obj(root);
    assert(root@ == root_of(background_of(sv), children_of(scv)));
    let mut out: Vec<(String, Json)> = Vec::new();
    out.push(("background".to_owned(), Json::Str(bg)));
    out.push(("root".to_owned(), root));
    match cd {
        Some(c) => out.push(("customer_display".to_owned(), c)),
        None => {},
    }
    match (logo_b64, logo) {
        (Some(b), Some(lg)) => {
            out.push(("__style_logo_base64".to_owned(), Json::Str(b)));
            out.push(("__style_logo_meta".to_owned(), lg));
        },
        _ => {},
    }
    proof {
        lemma_entries_view(out@);
        if let JsonV::Obj(es) = layout_from(sv, scv) {
            assert(entries_view(out@) =~= es);
        }
    }
    Some(Json::Obj(out))
}

/// Projecting a style with at least one screen and no requested id gives a
/// layout whose root is a column holding the first screen's children.
pub proof fn lemma_projects_first_screen(style: JsonV, xs: Seq<JsonV>, children: JsonV)
    requires
        field(style, "screens"@) == Some(JsonV::Arr(xs)),
        xs.len() >= 1,
        field(xs[0], "children"@) == Some(children),
    ensures
        project(style, None) is Some,
        field(project(style, None)->0, "root"@) is Some,
        field(field(project(style, None)->0, "root"@)->0, "type"@) == Some(JsonV::Str("column"@)),
        field(field(project(style, None)->0, "root"@)->0, "children"@) == Some(children),
{
    reveal_strlit("root");
    reveal_strlit("background");
    reveal_strlit("type");
    reveal_strlit("padding");
    reveal_strlit("gap");
    reveal_strlit("children");
    let l = layout_from(style, xs[0]);
    let bg = background_of(style);
    let r = root_of(bg, children);
    if let JsonV::Obj(es) = l {
        assert(es[0].0 == "background"@);
        assert(es[1] == ("root"@, r));
        assert("root"@ != "background"@);
        assert(lookup_from(es, "root"@, 1) == Some(r));
    }
    if let JsonV::Obj(rs) = r {
        assert("children"@[0] != "type"@[0]);
        assert("children"@ != "type"@);
        assert("children"@ != "background"@);
        assert("children"@[0] != "padding"@[0]);
        assert("children"@ != "padding"@);
        assert("children"@ != "gap"@);
        assert(lookup_from(rs, "children"@, 4) == Some(children));
        assert(lookup_from(rs, "children"@, 3) == Some(children));
        assert(lookup_from(rs, "children"@, 2) == Some(children));
        assert(lookup_from(rs, "children"@, 1) == Some(children));
    }
}

proof fn lemma_first_with_id(xs: Seq<JsonV>, id: Seq<char>, i: int)
    requires
        0 <= i <= xs.len(),
    ensures
        match first_with_id(xs, id, i) {
            Some(k) => i <= k < xs.len() && str_field(xs[k], "id"@) == Some(id) && forall|j: int|
                i <= j < k ==> str_field(#[trigger] xs[j], "id"@) != Some(id),
            None => forall|j: int| i <= j < xs.len() ==> str_field(#[trigger] xs[j], "id"@) != Some(id),
        },
    decreases xs.len() - i,
{
    if i < xs.len() {
        lemma_first_with_id(xs, id, i + 1);
    }
}

/// With a requested id, projection picks the first screen with that id; when
/// no screen has it, it falls back to the first screen.
pub proof fn lemma_projects_requested_screen(style: JsonV, xs: Seq<JsonV>, id: Seq<char>)
    requires
        field(style, "screens"@) == Some(JsonV::Arr(xs)),
        xs.len() >= 1,
    ensures
        (exists|i: int| 0 <= i < xs.len() && str_field(xs[i], "id"@) == Some(id)) ==> exists|k: int|
            {
                &&& 0 <= k < xs.len()
                &&& str_field(xs[k], "id"@) == Some(id)
                &&& forall|j: int| 0 <= j < k ==> str_field(#[trigger] xs[j], "id"@) != Some(id)
                &&& project(style, Some(id)) == Some(layout_from(style, xs[k]))
            },
        !(exists|i: int| 0 <= i < xs.len() && str_field(xs[i], "id"@) == Some(id)) ==> project(style, Some(id))
            == Some(layout_from(style, xs[0])),
{
    lemma_first_with_id(xs, id, 0);
    match first_with_id(xs, id, 0) {
        Some(k) => {
            assert(0 <= k < xs.len() && str_field(xs[k], "id"@) == Some(id));
        },
        None => {},
    }
}

} // verus!
