use vstd::prelude::*;
use vstd::utf8::encode_utf8;
use crate::json::{Json, JsonV, field, has, str_field, opt_view, items_view, lemma_items_view, str_eq};
use crate::codec::{json_doc, b64_json_doc, decode_json, decode_base64_json};
use crate::projector::{project, style_to_layout};

verus! {

/// `k2` inside the member `k1`.
pub open spec fn path(v: JsonV, k1: Seq<char>, k2: Seq<char>) -> Option<JsonV> {
    match field(v, k1) {
        Some(x) => field(x, k2),
        None => None,
    }
}

/// A value that holds a layout (`root`) or a style (`screens`).
pub open spec fn fires(c: Option<JsonV>) -> bool {
    match c {
        Some(x) => has(x, "root"@) || has(x, "screens"@),
        None => false,
    }
}

/// A layout as it is; a style projected onto its first screen.
pub open spec fn content_layout(c: JsonV) -> Option<JsonV> {
    if has(c, "root"@) {
        Some(c)
    } else {
        project(c, None)
    }
}

pub open spec fn cmd_name(v: JsonV) -> Seq<char> {
    match path(v, "cmd"@, "name"@) {
        Some(JsonV::Str(n)) => n,
        _ => ""@,
    }
}

pub open spec fn arg(v: JsonV, k: Seq<char>) -> Option<JsonV> {
    match path(v, "cmd"@, "args"@) {
        Some(a) => field(a, k),
        None => None,
    }
}

pub open spec fn is_apply(n: Seq<char>) -> bool {
    n == "ui.apply"@ || n == "ui.update"@
}

pub open spec fn is_style_apply(n: Seq<char>) -> bool {
    n == "ui.style.apply"@ || n == "ui.style.update"@
}

/// A decoded value that is a style.
pub open spec fn style_if(o: Option<JsonV>) -> Option<JsonV> {
    match o {
        Some(x) => if has(x, "screens"@) { Some(x) } else { None },
        None => None,
    }
}

/// The style held as JSON text in the command argument `k`.
pub open spec fn json_arg_style(v: JsonV, k: Seq<char>) -> Option<JsonV> {
    match text_of_arg(v, k) {
        Some(t) => style_if(json_doc(t)),
        None => None,
    }
}

/// The style held as base64 JSON text in the command argument `k`.
pub open spec fn b64_arg_style(v: JsonV, k: Seq<char>) -> Option<JsonV> {
    match text_of_arg(v, k) {
        Some(t) => style_if(b64_json_doc(t)),
        None => None,
    }
}

/// The style a `ui.style.*` command carries: the first of its sources, in
/// order, that holds a value with `screens`.
pub open spec fn command_style(v: JsonV) -> Option<JsonV> {
    if style_if(arg(v, "style"@)) is Some {
        arg(v, "style"@)
    } else if json_arg_style(v, "style_json"@) is Some {
        json_arg_style(v, "style_json"@)
    } else if b64_arg_style(v, "data_base64"@) is Some {
        b64_arg_style(v, "data_base64"@)
    } else {
        files_style(v)
    }
}

pub open spec fn text_of_arg(v: JsonV, k: Seq<char>) -> Option<Seq<char>> {
    match arg(v, k) {
        Some(JsonV::Str(t)) => Some(t),
        _ => None,
    }
}

/// The layout a message body stands for; the first rule that applies decides.
pub open spec fn normalize(v: JsonV) -> Option<JsonV> {
    if has(v, "root"@) {
        Some(v)
    } else if fires(field(v, "content"@)) {
        content_layout(field(v, "content"@)->0)
    } else if has(v, "screens"@) {
        project(v, None)
    } else if fires(path(v, "envelope"@, "content"@)) {
        content_layout(path(v, "envelope"@, "content"@)->0)
    } else if is_apply(cmd_name(v)) {
        if fires(arg(v, "content"@)) {
            content_layout(arg(v, "content"@)->0)
        } else if fires(field(v, "content"@)) {
            content_layout(field(v, "content"@)->0)
        } else {
            None
        }
    } else if is_style_apply(cmd_name(v)) {
        match command_style(v) {
            Some(st) => project(st, None),
            None => None,
        }
    } else {
        None
    }
}

// ---------------------------------------------------------------- files

pub open spec fn ci(c: char, lo: char, up: char) -> bool {
    c == lo || c == up
}

/// "style", in any case, starts at `i`.
pub open spec fn style_at(s: Seq<char>, i: int) -> bool {
    &&& 0 <= i
    &&& i + 5 <= s.len()
    &&& ci(s[i], 's', 'S')
    &&& ci(s[i + 1], 't', 'T')
    &&& ci(s[i + 2], 'y', 'Y')
    &&& ci(s[i + 3], 'l', 'L')
    &&& ci(s[i + 4], 'e', 'E')
}

pub open spec fn mentions_style(s: Seq<char>) -> bool {
    exists|i: int| style_at(s, i)
}

pub open spec fn name_of(f: JsonV) -> Seq<char> {
    match str_field(f, "name"@) {
        Some(n) => n,
        None => ""@,
    }
}

/// Files whose name mentions "style" come first.
pub open spec fn score(f: JsonV) -> int {
    if mentions_style(name_of(f)) { 0 } else { 1 }
}

/// Length of the name in UTF-8 bytes.
pub open spec fn name_len(f: JsonV) -> int {
    encode_utf8(name_of(f)).len() as int
}

/// File `i` is looked at before file `j`.
pub open spec fn before(fs: Seq<JsonV>, i: int, j: int) -> bool {
    score(fs[i]) < score(fs[j]) || (score(fs[i]) == score(fs[j]) && (name_len(fs[i]) < name_len(fs[j]) || (
    name_len(fs[i]) == name_len(fs[j]) && i < j)))
}

pub open spec fn content_text_style(f: JsonV) -> Option<JsonV> {
    match field(f, "content"@) {
        Some(JsonV::Str(t)) => style_if(json_doc(t)),
        _ => None,
    }
}

pub open spec fn text_style(f: JsonV, k: Seq<char>) -> Option<JsonV> {
    match str_field(f, k) {
        Some(t) => style_if(json_doc(t)),
        None => None,
    }
}

pub open spec fn b64_style(f: JsonV, k: Seq<char>) -> Option<JsonV> {
    match str_field(f, k) {
        Some(t) => style_if(b64_json_doc(t)),
        None => None,
    }
}

/// The style that a file carries in a text or base64 member.
pub open spec fn encoded_style(f: JsonV) -> Option<JsonV> {
    if content_text_style(f) is Some {
        content_text_style(f)
    } else if text_style(f, "text"@) is Some {
        text_style(f, "text"@)
    } else if b64_style(f, "content_b64"@) is Some {
        b64_style(f, "content_b64"@)
    } else if b64_style(f, "base64"@) is Some {
        b64_style(f, "base64"@)
    } else {
        b64_style(f, "bytes_b64"@)
    }
}

/// The style a file carries, its `content` object first.
pub open spec fn file_style(f: JsonV) -> Option<JsonV> {
    if style_if(field(f, "content"@)) is Some {
        field(f, "content"@)
    } else {
        encoded_style(f)
    }
}

/// File `i` carries a style and is looked at before every other file that does.
pub open spec fn chosen(fs: Seq<JsonV>, i: int) -> bool {
    &&& 0 <= i < fs.len()
    &&& file_style(fs[i]) is Some
    &&& forall|j: int| 0 <= j < fs.len() && j != i && (#[trigger] file_style(fs[j])) is Some ==> before(fs, i, j)
}

/// The style found among the attached `files`.
pub open spec fn files_style(v: JsonV) -> Option<JsonV> {
    match field(v, "files"@) {
        Some(JsonV::Arr(fs)) => if exists|i: int| chosen(fs, i) {
            file_style(fs[choose|i: int| chosen(fs, i)])
        } else {
            None
        },
        _ => None,
    }
}

pub fn mentions_style_exec(s: &str) -> (r: bool)
    ensures
        r == mentions_style(s@),
{
    let n = s.unicode_len();
    if n < 5 {
        return false;
    }
    let mut i: usize = 0;
    while i <= n - 5
        invariant
            n == s@.len(),
            n >= 5,
            i <= n - 4,
            forall|j: int| 0 <= j < i ==> !style_at(s@, j),
        decreases n - i,
    {
        let a = s.get_char(i);
        let b = s.get_char(i + 1);
        let c = s.get_char(i + 2);
        let d = s.get_char(i + 3);
        let e = s.get_char(i + 4);
        if (a == 's' || a == 'S') && (b == 't' || b == 'T') && (c == 'y' || c == 'Y') && (d == 'l' || d == 'L') && (
        e == 'e' || e == 'E') {
            assert(style_at(s@, i as int));
            return true;
        }
        i = i + 1;
    }
    false
}

fn style_of_parsed(o: Option<Json>) -> (r: Option<Json>)
    ensures
        opt_view(r) == style_if(opt_view(o)),
{
    match o {
        Some(x) => if x.has("screens") { Some(x) } else { None },
        None => None,
    }
}

fn encoded_style_exec(f: &Json) -> (r: Option<Json>)
    ensures
        opt_view(r) == encoded_style(f@),
{
    match f.get("content") {
        Some(Json::Str(t)) => {
            let s = style_of_parsed(decode_json(t.as_str()));
            if s.is_some() {
                return s;
            }
        },
        _ => {},
    }
    match f.get_str("text") {
        Some(t) => {
            let s = style_of_parsed(decode_json(t.as_str()));
            if s.is_some() {
                return s;
            }
        },
        None => {},
    }
    match f.get_str("content_b64") {
        Some(t) => {
            let s = style_of_parsed(decode_base64_json(t.as_str()));
            if s.is_some() {
                return s;
            }
        },
        None => {},
    }
    match f.get_str("base64") {
        Some(t) => {
            let s = style_of_parsed(decode_base64_json(t.as_str()));
            if s.is_some() {
                return s;
            }
        },
        None => {},
    }
    match f.get_str("bytes_b64") {
        Some(t) => style_of_parsed(decode_base64_json(t.as_str())),
        None => None,
    }
}

fn carries_style(f: &Json) -> (r: bool)
    ensures
        r == (file_style(f@) is Some),
{
    let direct = match f.get("content") {
        Some(c) => c.has("screens"),
        None => false,
    };
    direct || encoded_style_exec(f).is_some()
}

fn file_style_exec(f: Json) -> (r: Option<Json>)
    ensures
        opt_view(r) == file_style(f@),
{
    let direct = match f.get("content") {
        Some(c) => c.has("screens"),
        None => false,
    };
    if direct {
        f.take("content")
    } else {
        encoded_style_exec(&f)
    }
}

fn name_rank(f: &Json) -> (r: (u8, usize))
    ensures
        r.0 as int == score(f@),
        r.1 as int == name_len(f@),
{
    match f.get_str("name") {
        Some(n) => {
            let s: u8 = if mentions_style_exec(n.as_str()) { 0 } else { 1 };
            (s, n.as_str().as_bytes().len())
        },
        None => {
            proof {
                reveal_strlit("");
                assert(encode_utf8(""@) =~= Seq::<u8>::empty());
            }
            (1, 0)
        },
    }
}

/// Looks through the attached `files` for a style: files whose name mentions
/// "style" first, then shorter names, then list order.
pub fn find_style_in_files(v: Json) -> (r: Option<Json>)
    ensures
        opt_view(r) == files_style(v@),
{
    let ghost vv = v@;
    let files = v.take("files");
    let mut fs = match files {
        Some(Json::Arr(fs)) => fs,
        _ => return None,
    };
    proof {
        lemma_items_view(fs@);
    }
    let ghost fv = items_view(fs@);
    let mut best: Option<usize> = None;
    let mut best_rank: (u8, usize) = (0, 0);
    let mut i: usize = 0;
    while i < fs.len()
        invariant
            fv == items_view(fs@),
            fv.len() == fs@.len(),
            forall|j: int| 0 <= j < fs@.len() ==> #[trigger] fv[j] == fs@[j]@,
            i <= fs@.len(),
            match best {
                Some(b) => {
                    &&& b < i
                    &&& file_style(fv[b as int]) is Some
                    &&& best_rank.0 as int == score(fv[b as int])
                    &&& best_rank.1 as int == name_len(fv[b as int])
                    &&& forall|j: int| 0 <= j < i && j != b && (#[trigger] file_style(fv[j])) is Some ==> before(fv, b as int, j)
                },
                None => forall|j: int| 0 <= j < i ==> (#[trigger] file_style(fv[j])) is None,
            },
        decreases fs@.len() - i,
    {
        assert(fv[i as int] == fs@[i as int]@);
        if carries_style(&fs[i]) {
            let rk = name_rank(&fs[i]);
            match best {
                None => {
                    best = Some(i);
                    best_rank = rk;
                },
                Some(b) => {
                    if rk.0 < best_rank.0 || (rk.0 == best_rank.0 && rk.1 < best_rank.1) {
                        best = Some(i);
                        best_rank = rk;
                    }
                },
            }
        }
        i = i + 1;
    }
    match best {
        None => {
            assert(!exists|k: int| chosen(fv, k));
            None
        },
        Some(b) => {
            assert(chosen(fv, b as int));
            proof {
                let c = choose|k: int| chosen(fv, k);
                if c != b as int {
                    assert(before(fv, b as int, c));
                    assert(before(fv, c, b as int));
                }
            }
            let f = fs.remove(b);
            file_style_exec(f)
        },
    }
}

fn take2(v: Json, k1: &str, k2: &str) -> (r: Option<Json>)
    ensures
        opt_view(r) == path(v@, k1@, k2@),
{
    match v.take(k1) {
        Some(x) => x.take(k2),
        None => None,
    }
}

fn take_arg(v: Json, k: &str) -> (r: Option<Json>)
    ensures
        opt_view(r) == arg(v@, k@),
{
    match take2(v, "cmd", "args") {
        Some(a) => a.take(k),
        None => None,
    }
}

fn fires_exec(c: Option<&Json>) -> (r: bool)
    ensures
        r == fires(match c {
            Some(x) => Some(x@),
            None => None,
        }),
{
    match c {
        Some(x) => x.has("root") || x.has("screens"),
        None => false,
    }
}

fn content_layout_exec(c: Json) -> (r: Option<Json>)
    ensures
        opt_view(r) == content_layout(c@),
{
    if c.has("root") {
        Some(c)
    } else {
        style_to_layout(c, None)
    }
}

fn ref_path<'a>(v: &'a Json, k1: &str, k2: &str) -> (r: Option<&'a Json>)
    ensures
        match r {
            Some(x) => path(v@, k1@, k2@) == Some(x@),
            None => path(v@, k1@, k2@) is None,
        },
{
    match v.get(k1) {
        Some(x) => x.get(k2),
        None => None,
    }
}

fn ref_arg<'a>(v: &'a Json, k: &str) -> (r: Option<&'a Json>)
    ensures
        match r {
            Some(x) => arg(v@, k@) == Some(x@),
            None => arg(v@, k@) is None,
        },
{
    match ref_path(v, "cmd", "args") {
        Some(a) => a.get(k),
        None => None,
    }
}

/// What a command's name asks for: 1 to apply content, 2 to apply a style, 0 else.
fn command_kind(v: &Json) -> (r: u8)
    ensures
        r == 1 <==> is_apply(cmd_name(v@)),
        r == 2 <==> is_style_apply(cmd_name(v@)),
{
    proof {
        reveal_strlit("ui.apply");
        reveal_strlit("ui.update");
        reveal_strlit("ui.style.apply");
        reveal_strlit("ui.style.update");
        reveal_strlit("");
    }
    let n = match ref_path(v, "cmd", "name") {
        Some(Json::Str(n)) => n.as_str(),
        _ => "",
    };
    assert(n@ == cmd_name(v@));
    if str_eq(n, "ui.apply") || str_eq(n, "ui.update") {
        1
    } else if str_eq(n, "ui.style.apply") || str_eq(n, "ui.style.update") {
        assert(!is_apply(n@)) by {
            if n@ == "ui.apply"@ || n@ == "ui.update"@ {
                assert(n@.len() < 14);
            }
        }
        2
    } else {
        0
    }
}

fn command_style_exec(v: Json) -> (r: Option<Json>)
    ensures
        opt_view(r) == command_style(v@),
{
    let direct = match ref_arg(&v, "style") {
        Some(s) => s.has("screens"),
        None => false,
    };
    if direct {
        return take_arg(v, "style");
    }
    match ref_arg(&v, "style_json") {
        Some(Json::Str(t)) => {
            let s = style_of_parsed(decode_json(t.as_str()));
            if s.is_some() {
                return s;
            }
        },
        _ => {},
    }
    match ref_arg(&v, "data_base64") {
        Some(Json::Str(t)) => {
            let s = style_of_parsed(decode_base64_json(t.as_str()));
            if s.is_some() {
                return s;
            }
        },
        _ => {},
    }
    find_style_in_files(v)
}

/// Resolves one decoded message body to a layout, trying each known shape in
/// order; nothing when none applies.
pub fn extract_layout_from_value(v: Json) -> (r: Option<Json>)
    ensures
        opt_view(r) == normalize(v@),
{
    if v.has("root") {
        return Some(v);
    }
    if fires_exec(v.get("content")) {
        return content_layout_exec(v.take("content").unwrap());
    }
    if v.has("screens") {
        return style_to_layout(v, None);
    }
    if fires_exec(ref_path(&v, "envelope", "content")) {
        return content_layout_exec(take2(v, "envelope", "content").unwrap());
    }
    let kind = command_kind(&v);
    if kind == 1 {
        if fires_exec(ref_arg(&v, "content")) {
            return content_layout_exec(take_arg(v, "content").unwrap());
        }
        None
    } else if kind == 2 {
        match command_style_exec(v) {
            Some(st) => style_to_layout(st, None),
            None => None,
        }
    } else {
        None
    }
}

/// A layout (a value with `root`) normalizes to itself.
pub proof fn lemma_layout_normalizes_to_itself(v: JsonV)
    requires
        has(v, "root"@),
    ensures
        normalize(v) == Some(v),
{
}

} // verus!
