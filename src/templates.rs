use vstd::prelude::*;
use vstd::string::*;

verus! {

/// The home screen.
pub const BASE_LAYOUT: &'static str = "\n{\n  \"background\": \"#FFFFFF\",\n  \"root\": {\n    \"type\": \"column\",\n    \"background\": \"#FFFFFF\",\n    \"padding\": 24,\n    \"gap\": 12,\n    \"children\": [\n      { \"type\": \"text\", \"id\": \"txt_title\", \"text\": \"Inicio\", \"align\": \"center\", \"size\": 22, \"bold\": true, \"color\": \"#111827\" },\n      { \"type\": \"spacer\", \"id\": \"sp_start_1\", \"height\": 12 },\n      { \"type\": \"button\", \"id\": \"btn_proceed\", \"text\": \"Proceder al cobro\", \"on_click\": \"go_payment\", \"align\": \"center\", \"tint\": \"#2962FF\", \"text_color\": \"#FFFFFF\", \"enabled\": true }\n    ]\n  },\n  \"customer_display\": { \"text\": \"Bienvenido\", \"size\": 24, \"align\": \"center\", \"use_logo\": true, \"bg_color\": \"#000000\" }\n}\n";

/// The payment screen, in pieces around its button and result text.
pub const PAYMENT_HEAD: &'static str = "{\n  \"background\": \"#FFFFFF\",\n  \"root\": {\n    \"type\": \"column\",\n    \"background\": \"#FFFFFF\",\n    \"padding\": 24,\n    \"gap\": 8,\n    \"children\": [\n      { \"type\": \"button\", \"id\": \"btn_back\", \"text\": \"Regresar\", \"on_click\": \"nav_back\", \"align\": \"start\", \"tint\": \"#111827\", \"text_color\": \"#FFFFFF\", \"icon\": \"back\" },\n      { \"type\": \"spacer\", \"id\": \"sp_pay_2\", \"height\": 8 },\n      { \"type\": \"button\", \"id\": \"btn_print\", \"text\": \"Imprimir mensaje\", \"on_click\": \"print_from_button\", \"align\": \"center\", \"tint\": \"#2563EB\", \"text_color\": \"#FFFFFF\", \"icon\": \"print\" },\n      { \"type\": \"button\", \"id\": \"btn_read_cancel\", \"text\": \"";

pub const PAYMENT_AFTER_TEXT: &'static str = "\", \"on_click\": \"";

pub const PAYMENT_AFTER_CLICK: &'static str = "\", \"align\": \"center\", \"tint\": \"";

pub const PAYMENT_AFTER_TINT: &'static str = "\", \"text_color\": \"#FFFFFF\", \"icon\": \"info\" },\n      { \"type\": \"spacer\", \"id\": \"sp_pay_1\", \"height\": 12 },\n      { \"type\": \"text\", \"id\": \"txt_result_title\", \"text\": \"Resultado de lectura\", \"align\": \"start\", \"size\": 14, \"bold\": true },\n      { \"type\": \"text\", \"id\": \"msr_name\", \"text\": \"Nombre: {msr.cardholderName}\", \"align\": \"start\", \"size\": 12 },\n      { \"type\": \"text\", \"id\": \"msr_t1\", \"text\": \"Track 1: {msr.track1}\", \"align\": \"start\", \"size\": 12 },\n      { \"type\": \"text\", \"id\": \"msr_t2\", \"text\": \"Track 2: {msr.track2}\", \"align\": \"start\", \"size\": 12 },\n      { \"type\": \"text\", \"id\": \"msr_t3\", \"text\": \"Track 3: {msr.track3}\", \"align\": \"start\", \"size\": 12 },\n      { \"type\": \"scroll\", \"id\": \"msr_result\", \"weight\": 1, \"padding\": 12, \"text\": \"";

pub const PAYMENT_TAIL: &'static str = "\" }\n    ]\n  },\n  \"customer_display\": { \"text\": \"Bienvenido\", \"size\": 24, \"align\": \"center\", \"use_logo\": true, \"bg_color\": \"#000000\" }\n}";

/// Every `from` in `s` replaced by `to`.
pub open spec fn replaced(s: Seq<char>, from: char, to: Seq<char>) -> Seq<char>
    decreases s.len(),
{
    if s.len() == 0 {
        s
    } else {
        replaced(s.drop_last(), from, to) + if s.last() == from {
            to
        } else {
            seq![s.last()]
        }
    }
}

/// Every `from` in `s` replaced by `to`.
pub fn replace_char(s: &str, from: char, to: &str) -> (r: String)
    ensures
        r@ == replaced(s@, from, to@),
{
    let n = s.unicode_len();
    let mut out = String::new();
    let mut i: usize = 0;
    while i < n
        invariant
            n == s@.len(),
            i <= n,
            out@ == replaced(s@.subrange(0, i as int), from, to@),
        decreases n - i,
    {
        let c = s.get_char(i);
        assert(s@.subrange(0, i + 1).drop_last() =~= s@.subrange(0, i as int));
        assert(s@.subrange(0, i + 1).last() == c);
        if c == from {
            out.append(to);
        } else {
            let one = s.substring_char(i, i + 1);
            assert(one@ =~= seq![c]);
            out.append(one);
        }
        i = i + 1;
    }
    assert(s@.subrange(0, n as int) =~= s@);
    out
}

/// Label, event and tint of the read/cancel button.
pub open spec fn read_button(reading: bool) -> (Seq<char>, Seq<char>, Seq<char>) {
    if reading {
        ("Cancelar lectura"@, "btn_cancel_msr"@, "#DC2626"@)
    } else {
        ("Leer banda magnética"@, "btn_read_msr"@, "#D97706"@)
    }
}

/// The payment screen: its button follows `reading`, its result box shows
/// `last_result` with quotes escaped; then every `'` becomes `"`.
pub open spec fn payment_layout(reading: bool, last_result: Seq<char>) -> Seq<char> {
    let (t, c, k) = read_button(reading);
    replaced(
        PAYMENT_HEAD@ + t + PAYMENT_AFTER_TEXT@ + c + PAYMENT_AFTER_CLICK@ + k + PAYMENT_AFTER_TINT@
            + replaced(last_result, '"', "\\\""@) + PAYMENT_TAIL@,
        '\'',
        "\""@,
    )
}

pub fn build_base_layout() -> (r: String)
    ensures
        r@ == BASE_LAYOUT@,
{
    BASE_LAYOUT.to_owned()
}

pub fn build_payment_layout(reading: bool, last_result: &str) -> (r: String)
    ensures
        r@ == payment_layout(reading, last_result@),
{
    let (t, c, k) = if reading {
        ("Cancelar lectura", "btn_cancel_msr", "#DC2626")
    } else {
        ("Leer banda magnética", "btn_read_msr", "#D97706")
    };
    let escaped = replace_char(last_result, '"', "\\\"");
    let mut raw = PAYMENT_HEAD.to_owned();
    raw.append(t);
    raw.append(PAYMENT_AFTER_TEXT);
    raw.append(c);
    raw.append(PAYMENT_AFTER_CLICK);
    raw.append(k);
    raw.append(PAYMENT_AFTER_TINT);
    raw.append(escaped.as_str());
    raw.append(PAYMENT_TAIL);
    replace_char(raw.as_str(), '\'', "\"")
}

} // verus!
