use neovm_core::coding::CodingSystemManager;
use neovm_core::lisp_string::LispString;
use neovm_core::process::ProcessManager;
use neovm_core::session::Session;
use neovm_core::snapshot::{DisplayPointSnapshot, DisplayRowSnapshot, WindowDisplaySnapshot};
use neovm_core::symbol::Obarray;
use neovm_core::value::{error_signal, signal, EvalResult, Flow, Value};
use neovm_core::window::{Leaf, Window};
use neovm_core::window_cmds::frames::builtin_modify_frame_parameters;
use neovm_core::window_cmds::state::{ensure_selected_frame_id, Ui};
use neovm_core::xdisp::construct::mode_line_human_readable_size;
use neovm_core::xdisp::format::{
    builtin_format_mode_line, builtin_format_mode_line_ctx, builtin_format_mode_line_in_vm_runtime,
    finish_format_mode_line_in_state_with_eval, format_mode_line_for_display,
    format_mode_line_from_state,
};
use neovm_core::xdisp::measure::{
    builtin_move_to_window_line, builtin_tab_bar_height_ctx, builtin_tool_bar_height_ctx,
    builtin_window_text_pixel_size_ctx,
};
use neovm_core::xdisp::percent::{build_mode_line_percent_context, share_in_percent};
use neovm_core::xdisp::posn::{builtin_posn_at_point, builtin_posn_at_x_y};
use neovm_core::xdisp::rendered::{plist_value, properties_at, ModeLineRendered};
use neovm_core::xdisp::simple::{
    builtin_bidi_find_overridden_directionality, builtin_bidi_resolved_levels,
    builtin_current_bidi_paragraph_direction, builtin_invisible_p,
    builtin_line_number_display_width, builtin_line_pixel_height,
    builtin_long_line_optimizations_p, builtin_lookup_image_map, builtin_move_point_visually,
    builtin_pos_visible_in_window_p, builtin_tab_bar_height, builtin_tool_bar_height,
    builtin_window_text_pixel_size,
};
use neovm_core::xdisp::vars::register_bootstrap_vars;
use neovm_core::xdisp::visible::{
    builtin_pos_visible_in_window_p_ctx, builtin_window_line_height,
    resolve_live_window_display_context,
};
use neovm_core::xdisp::walk::{
    format_mode_line_recursive, Evaluation, WalkRules, WalkStop,
};

// ---------------------------------------------------------------------------
// Helpers
// ---------------------------------------------------------------------------

fn session() -> Session {
    let mut ui = Ui::new();
    let id = ui.buffers.create_buffer("*scratch*");
    ui.buffers.set_current(id);
    let mut obarray = Obarray::new();
    obarray.set_symbol_value("mode-name", Value::string("Fundamental"));
    obarray.set_symbol_value("eol-mnemonic-unix", Value::string(":"));
    obarray.set_symbol_value("eol-mnemonic-dos", Value::string("\\"));
    obarray.set_symbol_value("eol-mnemonic-mac", Value::string("/"));
    obarray.set_symbol_value("eol-mnemonic-undecided", Value::string(":"));
    Session {
        ui,
        obarray,
        processes: ProcessManager::new(),
        codings: CodingSystemManager::new(),
        recursive_depth: 0,
    }
}

fn evaluate(s: Session, form: Value) -> (Session, Result<Value, Flow>) {
    let result = match &form {
        Value::Symbol(name) => {
            let local = s
                .ui
                .buffers
                .current_buffer()
                .and_then(|b| b.get_buffer_local(name));
            match local.or_else(|| s.obarray.symbol_value(name)) {
                Some(v) => Ok(v),
                None => Err(signal("void-variable", Value::list1(form.copy()))),
            }
        }
        Value::Cons(head, tail) if head.is_symbol_named("error") => {
            let _ = tail;
            Err(error_signal("boom"))
        }
        _ => Ok(form.copy()),
    };
    (s, result)
}

fn line(s: Session, args: Vec<Value>) -> (Session, EvalResult) {
    builtin_format_mode_line_ctx(s, &evaluate, &args)
}

fn render(s: Session, args: Vec<Value>) -> (Session, Value) {
    let (s, r) = line(s, args);
    (s, r.expect("format-mode-line"))
}

fn text(v: &Value) -> String {
    v.as_runtime_string().expect("string").into_iter().collect()
}

fn property(v: &Value, i: usize, name: &str) -> Option<Value> {
    match v {
        Value::Str(_, runs) => plist_value(&properties_at(runs, i), &Value::symbol(name)),
        _ => None,
    }
}

fn has_properties(v: &Value) -> bool {
    match v {
        Value::Str(_, runs) => !runs.is_nil(),
        _ => false,
    }
}

fn current(s: &Session) -> u64 {
    s.ui.buffers.current_buffer_id().expect("current buffer")
}

fn set_local(s: &mut Session, id: u64, name: &str, v: Value) {
    let i = s.ui.buffers.index_of(id);
    s.ui.buffers.list[i].set_buffer_local(name, v);
}

fn insert(ui: &mut Ui, id: u64, t: &str) {
    let string = Value::string(t).as_lisp_string().unwrap();
    let i = ui.buffers.index_of(id);
    ui.buffers.list[i].insert_lisp_string(&string);
}

fn goto(ui: &mut Ui, id: u64, byte: usize) {
    ui.buffers.goto_buffer_byte(id, byte);
}

fn frame(ui: &mut Ui, name: &str, w: u32, h: u32, buffer: u64) -> u64 {
    ui.frames.create_frame(Value::string(name), w, h, buffer)
}

fn selected_window(ui: &Ui, f: u64) -> u64 {
    ui.frames.get(f).expect("frame").selected_window
}

fn change_leaf(ui: &mut Ui, f: u64, w: u64, change: impl Fn(&mut Leaf)) {
    match ui.frames.find_window(f, w) {
        Some(Window::Leaf(l)) => {
            let mut new = l;
            change(&mut new);
            ui.frames.set_leaf(f, w, new);
        }
        other => panic!("expected leaf window, got {:?}", other),
    }
}

fn unibyte(bytes: Vec<u8>) -> Value {
    Value::heap_string(LispString::from_unibyte(bytes))
}

fn error_name(r: EvalResult) -> String {
    match r.unwrap_err() {
        Flow::Signal(sig) => sig.symbol_name().to_string(),
    }
}

fn error_data(r: EvalResult) -> Value {
    match r.unwrap_err() {
        Flow::Signal(sig) => sig.data,
    }
}

fn print(v: &Value) -> String {
    match v {
        Value::Nil => "nil".to_string(),
        Value::True => "t".to_string(),
        Value::Int(n) => format!("{}", n),
        Value::Symbol(s) => s.clone(),
        Value::Window(w) => format!("#<window {}>", w),
        Value::Str(_, _) => format!("{:?}", text(v)),
        Value::Cons(_, _) => {
            let mut out = String::from("(");
            let mut rest = v.copy();
            let mut first = true;
            loop {
                match rest {
                    Value::Cons(a, d) => {
                        if !first {
                            out.push(' ');
                        }
                        first = false;
                        out.push_str(&print(&a));
                        rest = *d;
                    }
                    Value::Nil => break,
                    other => {
                        out.push_str(" . ");
                        out.push_str(&print(&other));
                        break;
                    }
                }
            }
            out.push(')');
            out
        }
        other => panic!("unexpected value {:?}", other),
    }
}

fn plain(t: &str) -> Value {
    Value::string(t)
}

fn symbol(t: &str) -> Value {
    Value::symbol(t)
}

fn list(items: Vec<Value>) -> Value {
    Value::list(items)
}

fn boom() -> Value {
    list(vec![
        symbol(":eval"),
        list(vec![symbol("error"), plain("boom")]),
    ])
}

// ---------------------------------------------------------------------------
// Variables
// ---------------------------------------------------------------------------

#[test]
fn test_register_bootstrap_vars_include_tab_bar_display_vars() {
    let mut obarray = Obarray::new();
    register_bootstrap_vars(&mut obarray);

    assert_eq!(obarray.symbol_value("inhibit-redisplay"), Some(Value::Nil));
    assert_eq!(
        obarray.symbol_value("auto-resize-tab-bars"),
        Some(Value::True)
    );
    assert_eq!(
        obarray.symbol_value("auto-raise-tab-bar-buttons"),
        Some(Value::True)
    );
    assert_eq!(
        obarray.symbol_value("tab-bar-border"),
        Some(symbol("internal-border-width"))
    );
    assert_eq!(
        obarray.symbol_value("tab-bar-button-margin"),
        Some(Value::fixnum(1))
    );
    assert_eq!(
        obarray.symbol_value("fontification-functions"),
        Some(Value::Nil)
    );
    assert!(obarray.is_special("fontification-functions"));
    assert!(obarray.is_local_if_set("fontification-functions"));
}

#[test]
fn bootstrap_vars_hold_character_tables() {
    let mut obarray = Obarray::new();
    register_bootstrap_vars(&mut obarray);
    assert_eq!(
        obarray.get_property("fontset", "char-table-extra-slots"),
        Some(Value::fixnum(8))
    );
    match obarray.symbol_value("char-width-table") {
        Some(Value::CharTable(l)) => {
            assert_eq!(l.car(), symbol("char-width-table"));
            assert_eq!(l.cdr().car(), Value::fixnum(1));
        }
        other => panic!("expected character table, got {:?}", other),
    }
}

// ---------------------------------------------------------------------------
// format-mode-line
// ---------------------------------------------------------------------------

#[test]
fn test_format_mode_line() {
    let result = builtin_format_mode_line(&vec![plain("test"), symbol("default")]).unwrap();
    assert_eq!(result, plain(""));

    let result =
        builtin_format_mode_line(&vec![plain("test"), symbol("default"), Value::Nil]).unwrap();
    assert_eq!(result, plain(""));

    let err = builtin_format_mode_line(&vec![plain("test"), symbol("default"), symbol("window")]);
    assert_eq!(error_name(err), "wrong-type-argument");

    let err = builtin_format_mode_line(&vec![
        plain("test"),
        symbol("default"),
        Value::Nil,
        symbol("buffer"),
    ]);
    assert_eq!(error_name(err), "wrong-type-argument");

    assert!(builtin_format_mode_line(&vec![]).is_err());
}

#[test]
fn test_format_mode_line_eval_optional_designators() {
    let mut s = session();
    let buffer_id = current(&s);
    let frame_id = frame(&mut s.ui, "xdisp-format", 80, 24, buffer_id);
    let window_id = selected_window(&s.ui, frame_id) as i64;

    let (s, ok) = render(
        s,
        vec![
            plain("%b"),
            Value::Nil,
            Value::fixnum(window_id),
            Value::Buffer(buffer_id),
        ],
    );
    assert_eq!(ok, plain("*scratch*"));

    let (s, err) = line(s, vec![plain("%b"), Value::Nil, plain("x")]);
    assert_eq!(error_name(err), "wrong-type-argument");

    let (_, err) = line(s, vec![plain("%b"), Value::Nil, Value::Nil, plain("x")]);
    assert_eq!(error_name(err), "wrong-type-argument");
}

#[test]
fn test_resolve_live_window_display_context_uses_selected_window_buffer_point() {
    let mut s = session();
    let selected_buffer_id = current(&s);
    let frame_id = frame(
        &mut s.ui,
        "xdisp-selected-point",
        800,
        600,
        selected_buffer_id,
    );
    let window = selected_window(&s.ui, frame_id);
    insert(&mut s.ui, selected_buffer_id, "abc\ndef\n");
    goto(&mut s.ui, selected_buffer_id, 5);
    let other_id = s.ui.buffers.create_buffer("*other*");
    s.ui.buffers.set_current(other_id);

    let ctx = resolve_live_window_display_context(
        &s.ui.frames,
        &s.ui.buffers,
        &Value::Window(window),
    )
    .expect("display context")
    .expect("selected window context");

    assert_eq!(ctx.window_point, 6);
    assert_eq!(s.ui.buffers.current_buffer_id(), Some(other_id));
}

#[test]
fn test_format_mode_line_eval_uses_explicit_buffer_instead_of_current_buffer() {
    let mut s = session();
    let saved_current = current(&s);
    let other_id = s.ui.buffers.create_buffer("*other*");

    let (s, ok) = render(
        s,
        vec![
            plain("%b"),
            Value::Nil,
            Value::Nil,
            Value::Buffer(other_id),
        ],
    );

    assert_eq!(ok, plain("*other*"));
    assert_eq!(s.ui.buffers.current_buffer_id(), Some(saved_current));
}

#[test]
fn test_format_mode_line_eval_uses_window_buffer_instead_of_current_buffer() {
    let mut s = session();
    let saved_current = current(&s);
    let frame_id = frame(&mut s.ui, "xdisp-window", 80, 24, saved_current);
    let other_id = s.ui.buffers.create_buffer("*window*");
    let window_id = selected_window(&s.ui, frame_id);
    change_leaf(&mut s.ui, frame_id, window_id, |l| l.buffer_id = other_id);

    let (s, ok) = render(
        s,
        vec![
            plain("%b"),
            Value::Nil,
            Value::Window(window_id),
            Value::Nil,
        ],
    );

    assert_eq!(ok, plain("*window*"));
    assert_eq!(s.ui.buffers.current_buffer_id(), Some(saved_current));
}

#[test]
fn test_format_mode_line_in_state_uses_buffer_local_symbols_and_restores_buffer() {
    let mut s = session();
    let saved_current = current(&s);
    let other_id = s.ui.buffers.create_buffer("*mode-line*");
    set_local(&mut s, other_id, "mode-name", plain("Neo"));

    let (s, rendered) = format_mode_line_from_state(
        s,
        &vec![
            list(vec![
                plain("%b "),
                symbol("mode-name"),
                plain(" "),
                symbol("mode-line-front-space"),
            ]),
            Value::Nil,
            Value::Nil,
            Value::Buffer(other_id),
        ],
    );
    let rendered = rendered
        .expect("format-mode-line shared state")
        .expect("non-:eval format should stay on shared state");

    assert_eq!(rendered, plain("*mode-line* Neo "));
    assert_eq!(s.ui.buffers.current_buffer_id(), Some(saved_current));
}

#[test]
fn state_alone_gives_up_on_forms_to_evaluate() {
    let s = session();
    let before = current(&s);
    let (s, rendered) = format_mode_line_from_state(s, &vec![list(vec![plain("a"), boom()])]);
    assert_eq!(rendered, Ok(None));
    assert_eq!(current(&s), before);
}

fn walk(evaluation: Evaluation, fmt: &Value) -> (Value, Option<WalkStop>) {
    let s = session();
    let percent = build_mode_line_percent_context(
        &s.ui.frames,
        &s.ui.buffers,
        None,
        &s.obarray,
        &Value::Nil,
        None,
    );
    let rules = WalkRules {
        evaluation,
        percent,
        counts_loops: false,
    };
    let mut result = ModeLineRendered::new();
    let (_, stop, _) =
        format_mode_line_recursive(&rules, &evaluate, s, fmt, &mut result, 0, false);
    (result.into_value(&Value::Nil), stop)
}

#[test]
fn walk_without_evaluation_keeps_the_text_up_to_the_form() {
    let propertized = list(vec![
        plain("a"),
        list(vec![
            symbol(":propertize"),
            list(vec![plain("xy"), boom(), plain("z")]),
            symbol("face"),
            symbol("bold"),
        ]),
        plain("b"),
    ]);
    let (text_so_far, stop) = walk(Evaluation::Refused, &propertized);
    assert!(matches!(stop, Some(WalkStop::NeedsEval)));
    assert_eq!(text(&text_so_far), "axy");
    assert_eq!(property(&text_so_far, 0, "face"), None);
    assert_eq!(property(&text_so_far, 1, "face"), Some(symbol("bold")));
    assert_eq!(property(&text_so_far, 2, "face"), Some(symbol("bold")));
    let (text_so_far, stop) = walk(Evaluation::Strict, &propertized);
    assert!(matches!(stop, Some(WalkStop::Raised(_))));
    assert_eq!(text(&text_so_far), "a");
    let (whole, stop) = walk(Evaluation::Lenient, &propertized);
    assert!(stop.is_none());
    assert_eq!(text(&whole), "axyzb");

    let padded = list(vec![
        plain("a"),
        list(vec![Value::fixnum(4), plain("xy"), boom()]),
        plain("b"),
    ]);
    let (text_so_far, stop) = walk(Evaluation::Refused, &padded);
    assert!(matches!(stop, Some(WalkStop::NeedsEval)));
    assert_eq!(text_so_far, plain("axy  "));
    let (text_so_far, stop) = walk(Evaluation::Strict, &padded);
    assert!(matches!(stop, Some(WalkStop::Raised(_))));
    assert_eq!(text_so_far, plain("a"));
    let cut = list(vec![Value::fixnum(-1), plain("xy"), boom()]);
    let (text_so_far, stop) = walk(Evaluation::Refused, &cut);
    assert!(matches!(stop, Some(WalkStop::NeedsEval)));
    assert_eq!(text_so_far, plain("x"));
}

#[test]
fn test_format_mode_line_eval_keeps_shared_buffer_context_around_eval_forms() {
    let mut s = session();
    let saved_current = current(&s);
    let other_id = s.ui.buffers.create_buffer("*mode-line-eval*");
    set_local(&mut s, other_id, "mode-name", plain("Neo"));

    let (s, rendered) = render(
        s,
        vec![
            list(vec![
                plain("%b "),
                list(vec![symbol(":eval"), symbol("mode-name")]),
            ]),
            Value::Nil,
            Value::Nil,
            Value::Buffer(other_id),
        ],
    );

    assert_eq!(rendered, plain("*mode-line-eval* Neo"));
    assert_eq!(s.ui.buffers.current_buffer_id(), Some(saved_current));
}

#[test]
fn test_format_mode_line_in_state_with_eval_keeps_shared_buffer_context_around_eval_forms() {
    let mut s = session();
    let saved_current = current(&s);
    let other_id = s.ui.buffers.create_buffer("*mode-line-shared-eval*");
    set_local(&mut s, other_id, "mode-name", plain("Neo"));

    let eval_form = |s: Session, form: Value| -> (Session, Result<Value, Flow>) {
        assert_eq!(form, Value::symbol("mode-name"));
        let v = s
            .ui
            .buffers
            .current_buffer()
            .expect("mode-line buffer")
            .get_buffer_local("mode-name")
            .expect("buffer-local mode-name");
        (s, Ok(v))
    };
    let (s, rendered) = finish_format_mode_line_in_state_with_eval(
        s,
        &eval_form,
        &vec![
            list(vec![
                plain("%b "),
                list(vec![symbol(":eval"), symbol("mode-name")]),
            ]),
            Value::Nil,
            Value::Nil,
            Value::Buffer(other_id),
        ],
    );

    assert_eq!(
        rendered.expect("format-mode-line shared eval"),
        plain("*mode-line-shared-eval* Neo")
    );
    assert_eq!(s.ui.buffers.current_buffer_id(), Some(saved_current));
}

#[test]
fn failed_evaluation_is_forgiven_or_raised() {
    let fmt = || list(vec![plain("a"), boom(), plain("b")]);
    let (s, rendered) = render(session(), vec![fmt()]);
    assert_eq!(rendered, plain("ab"));
    let (_, raised) = builtin_format_mode_line_in_vm_runtime(s, &evaluate, &vec![fmt()]);
    assert_eq!(error_name(raised), "error");
    let (_, raised) =
        finish_format_mode_line_in_state_with_eval(session(), &evaluate, &vec![fmt()]);
    assert_eq!(error_data(raised), list(vec![plain("boom")]));
}

#[test]
fn evaluation_may_change_the_session() {
    let change = |mut s: Session, _form: Value| -> (Session, Result<Value, Flow>) {
        s.obarray.set_symbol_value("seen", Value::string("yes"));
        (s, Ok(Value::Nil))
    };
    let (s, rendered) = builtin_format_mode_line_ctx(
        session(),
        &change,
        &vec![list(vec![
            symbol("seen"),
            plain("early"),
            list(vec![
                plain("-"),
                list(vec![symbol(":eval"), symbol("x")]),
                symbol("seen"),
            ]),
        ])],
    );
    assert_eq!(rendered.unwrap(), plain("-yes"));
    assert_eq!(s.obarray.symbol_value("seen"), Some(plain("yes")));
}

#[test]
fn test_format_mode_line_preserves_raw_unibyte_literal_segments() {
    let raw = unibyte(vec![0xFF]);
    let (_, rendered) = render(session(), vec![list(vec![raw])]);
    let t = rendered
        .as_lisp_string()
        .expect("format-mode-line should return a string");
    assert!(!t.is_multibyte());
    assert_eq!(t.as_bytes(), &[0xFF]);
}

#[test]
fn test_format_mode_line_symbol_conditional_uses_only_selected_branch() {
    let mut s = session();
    s.obarray.set_symbol_value("mode-line-flag", Value::True);

    let (mut s, then_rendered) = render(
        s,
        vec![list(vec![
            symbol("mode-line-flag"),
            plain("then"),
            boom(),
        ])],
    );

    s.obarray.set_symbol_value("mode-line-flag", Value::Nil);
    let (_, else_rendered) = render(
        s,
        vec![list(vec![
            symbol("mode-line-flag"),
            boom(),
            plain("else"),
        ])],
    );

    assert_eq!(then_rendered, plain("then"));
    assert_eq!(else_rendered, plain("else"));
}

#[test]
fn test_format_mode_line_string_valued_symbols_render_literally() {
    let mut s = session();
    let other_id = s.ui.buffers.create_buffer("*mode-line-literal*");
    set_local(&mut s, other_id, "mode-name", plain("%b"));

    let (_, rendered) = format_mode_line_from_state(
        s,
        &vec![
            list(vec![plain("%b "), symbol("mode-name")]),
            Value::Nil,
            Value::Nil,
            Value::Buffer(other_id),
        ],
    );
    assert_eq!(
        rendered.unwrap().expect("no evaluation"),
        plain("*mode-line-literal* %b")
    );
}

#[test]
fn test_format_mode_line_fixnum_elements_pad_and_truncate_tail() {
    let mut s = session();
    let other_id = s.ui.buffers.create_buffer("xy");

    let (_, rendered) = format_mode_line_from_state(
        s,
        &vec![
            list(vec![
                list(vec![Value::fixnum(5), plain("%b")]),
                plain("!"),
                list(vec![Value::fixnum(-1), plain("%b")]),
            ]),
            Value::Nil,
            Value::Nil,
            Value::Buffer(other_id),
        ],
    );
    assert_eq!(
        rendered.unwrap().expect("no evaluation"),
        plain("xy   !x")
    );
}

#[test]
fn test_format_mode_line_percent_specs_keep_gnu_field_width_and_dash_semantics() {
    let mut s = session();
    let other_id = s.ui.buffers.create_buffer("xy");

    let (_, rendered) = format_mode_line_from_state(
        s,
        &vec![
            plain("%5b|%-|%2*"),
            Value::Nil,
            Value::Nil,
            Value::Buffer(other_id),
        ],
    );
    assert_eq!(
        rendered.unwrap().expect("no evaluation"),
        plain("xy   |--|- ")
    );
}

#[test]
fn test_format_mode_line_respects_risky_local_variable_for_eval_forms() {
    let mut s = session();
    s.obarray.set_symbol_value("unsafe-mode-line", boom());
    s.obarray.set_symbol_value(
        "trusted-mode-line",
        list(vec![symbol(":eval"), plain("ok")]),
    );
    s.obarray
        .put_property("trusted-mode-line", "risky-local-variable", Value::True);

    let (s, suppressed) = render(s, vec![symbol("unsafe-mode-line")]);
    let (_, allowed) = render(s, vec![symbol("trusted-mode-line")]);

    assert_eq!(suppressed, plain(""));
    assert_eq!(allowed, plain("ok"));
}

#[test]
fn test_format_mode_line_propertize_preserves_text_properties() {
    let (_, rendered) = render(
        session(),
        vec![list(vec![
            symbol(":propertize"),
            plain("abc"),
            symbol("face"),
            symbol("bold"),
            symbol("help-echo"),
            plain("h"),
        ])],
    );

    assert_eq!(text(&rendered), "abc");
    assert_eq!(property(&rendered, 0, "face"), Some(symbol("bold")));
    assert_eq!(property(&rendered, 0, "help-echo"), Some(plain("h")));
}

#[test]
fn test_format_mode_line_percent_specs_preserve_source_string_text_properties() {
    let mut s = session();
    let buffer_id = s.ui.buffers.create_buffer("fmt-prop-buffer");
    s.ui.buffers.set_current(buffer_id);

    let runs = list(vec![list(vec![
        Value::fixnum(0),
        Value::fixnum(3),
        list(vec![
            symbol("face"),
            symbol("bold"),
            symbol("help-echo"),
            plain("h"),
        ]),
    ])]);
    let format = Value::Str(
        plain("%b!").as_lisp_string().unwrap(),
        Box::new(runs),
    );
    let (_, rendered) = render(s, vec![format]);

    assert_eq!(text(&rendered), "fmt-prop-buffer!");
    assert_eq!(property(&rendered, 0, "face"), Some(symbol("bold")));
    assert_eq!(property(&rendered, 0, "help-echo"), Some(plain("h")));
    let last = "fmt-prop-buffer".len();
    assert_eq!(property(&rendered, last, "face"), Some(symbol("bold")));
    assert_eq!(property(&rendered, last, "help-echo"), Some(plain("h")));
}

#[test]
fn test_format_mode_line_status_specs_match_gnu_buffer_state() {
    let mut s = session();
    let buffer_id = s.ui.buffers.create_buffer("status-buffer");
    s.ui.buffers.set_current(buffer_id);
    insert(&mut s.ui, buffer_id, "abc");
    let i = s.ui.buffers.index_of(buffer_id);
    s.ui.buffers.list[i].modified = true;
    set_local(&mut s, buffer_id, "buffer-read-only", Value::True);

    let (mut s, status) = render(s, vec![plain("%*|%+|%&")]);
    assert_eq!(status, plain("%|*|*"));

    set_local(&mut s, buffer_id, "buffer-read-only", Value::Nil);
    s.ui.buffers.list[i].modified = false;
    s.ui.buffers.list[i].begv = 1;
    s.ui.buffers.list[i].zv = 2;
    s.ui.buffers.list[i].goto_byte(2);

    let (_, narrowed) = render(s, vec![plain("%n")]);
    assert_eq!(narrowed, plain(" Narrow"));
}

#[test]
fn test_format_mode_line_face_argument_adds_default_face_and_merges_explicit_face() {
    let (_, rendered) = render(
        session(),
        vec![
            list(vec![
                list(vec![
                    symbol(":propertize"),
                    plain("a"),
                    symbol("face"),
                    symbol("italic"),
                ]),
                plain("b"),
            ]),
            symbol("bold"),
        ],
    );

    assert_eq!(text(&rendered), "ab");
    assert_eq!(
        property(&rendered, 0, "face"),
        Some(list(vec![symbol("italic"), symbol("bold")]))
    );
    assert_eq!(property(&rendered, 1, "face"), Some(symbol("bold")));
}

#[test]
fn test_format_mode_line_integer_face_argument_discards_text_properties() {
    let (_, rendered) = render(
        session(),
        vec![
            list(vec![
                symbol(":propertize"),
                plain("abc"),
                symbol("face"),
                symbol("bold"),
                symbol("help-echo"),
                plain("h"),
            ]),
            Value::fixnum(0),
        ],
    );

    assert_eq!(rendered, plain("abc"));
    assert!(!has_properties(&rendered));
}

#[test]
fn test_format_mode_line_fixnum_padding_does_not_inherit_inner_properties() {
    let (_, rendered) = render(
        session(),
        vec![list(vec![
            Value::fixnum(5),
            list(vec![
                symbol(":propertize"),
                plain("x"),
                symbol("face"),
                symbol("bold"),
            ]),
        ])],
    );

    assert_eq!(text(&rendered), "x    ");
    assert_eq!(property(&rendered, 0, "face"), Some(symbol("bold")));
    assert_eq!(property(&rendered, 1, "face"), None);
}

#[test]
fn test_format_mode_line_recursive_depth_specs_match_gnu() {
    let mut s = session();

    s.recursive_depth = 4;
    let (mut s, shallow) = render(s, vec![plain("%[|%]")]);
    assert_eq!(shallow, plain("[[[|]]]"));

    s.recursive_depth = 7;
    let (s, deep) = render(s, vec![plain("%[|%]")]);
    assert_eq!(deep, plain("[[[... | ...]]]"));

    let (_, state) = format_mode_line_from_state(s, &vec![plain("%[|%]")]);
    assert_eq!(state, Ok(Some(plain("|"))));
}

#[test]
fn test_format_mode_line_size_and_process_specs_match_gnu() {
    let mut s = session();
    let buffer_id = s.ui.buffers.create_buffer("mode-line-metadata");
    s.ui.buffers.set_current(buffer_id);
    insert(&mut s.ui, buffer_id, &"x".repeat(1536));

    let (mut s, no_process) = render(s, vec![plain("%i|%I|%s")]);
    assert_eq!(no_process, plain("1536|1.5k|no process"));

    s.processes.create_process("mode-line-proc", Some(buffer_id));
    let (_, with_process) = render(s, vec![plain("%i|%I|%s")]);
    assert_eq!(with_process, plain("1536|1.5k|run"));
}

#[test]
fn sizes_have_a_short_form() {
    let short = |n: usize| -> String { mode_line_human_readable_size(n).into_iter().collect() };
    assert_eq!(short(0), "0");
    assert_eq!(short(999), "999");
    assert_eq!(short(1000), "1.0k");
    assert_eq!(short(1049), "1.0k");
    assert_eq!(short(1050), "1.1k");
    assert_eq!(short(9949), "9.9k");
    assert_eq!(short(9950), "10k");
    assert_eq!(short(8950), "9.0k");
    assert_eq!(short(10_499), "10k");
    assert_eq!(short(10_500), "11k");
    assert_eq!(short(999_499), "999k");
    assert_eq!(short(999_500), "1.0M");
    assert_eq!(short(2_500_000_000), "2.5G");
    assert_eq!(short(3_000_000_000_000), "3.0T");
}

#[test]
fn shares_are_rounded_up_and_below_a_hundred() {
    assert_eq!(share_in_percent(0, 0), 0);
    assert_eq!(share_in_percent(0, 10), 0);
    assert_eq!(share_in_percent(1, 1000), 1);
    assert_eq!(share_in_percent(1, 3), 34);
    assert_eq!(share_in_percent(50, 100), 50);
    assert_eq!(share_in_percent(10, 10), 99);
}

#[test]
fn test_format_mode_line_column_c_and_big_c_specs_match_gnu() {
    let mut s = session();
    let buffer_id = s.ui.buffers.create_buffer("col-test");
    s.ui.buffers.set_current(buffer_id);
    insert(&mut s.ui, buffer_id, "abcdef");
    goto(&mut s.ui, buffer_id, 3);

    let (_, rendered) = render(s, vec![plain("%c|%C")]);
    assert_eq!(rendered, plain("3|4"));
}

#[test]
fn line_and_column_count_characters() {
    let mut s = session();
    let id = current(&s);
    insert(&mut s.ui, id, "one\ntwo \u{e9}\u{4e2d}x");
    let (_, rendered) = render(s, vec![plain("%l|%c|%f|%e|%k|%")]);
    assert_eq!(rendered, plain("2|7|||%k|%"));
}

#[test]
fn test_format_mode_line_major_mode_name_spec_matches_gnu() {
    let mut s = session();
    let buffer_id = s.ui.buffers.create_buffer("mode-test");
    s.ui.buffers.set_current(buffer_id);
    set_local(&mut s, buffer_id, "mode-name", plain("Emacs-Lisp"));

    let (mut s, rendered) = render(s, vec![plain("%m")]);
    assert_eq!(rendered, plain("Emacs-Lisp"));

    let other_id = s.ui.buffers.create_buffer("default-mode");
    s.ui.buffers.set_current(other_id);
    let (_, default) = render(s, vec![plain("%m")]);
    assert_eq!(default, plain("Fundamental"));
}

#[test]
fn test_format_mode_line_major_mode_name_preserves_raw_unibyte_value() {
    let mut s = session();
    let buffer_id = s.ui.buffers.create_buffer("raw-mode-test");
    s.ui.buffers.set_current(buffer_id);
    set_local(
        &mut s,
        buffer_id,
        "mode-name",
        unibyte(vec![0xFF, b'-', b'M']),
    );

    let (_, rendered) = render(s, vec![plain("%m")]);
    let t = rendered.as_lisp_string().expect("string");
    assert!(!t.is_multibyte());
    assert_eq!(t.as_bytes(), &[0xFF, b'-', b'M']);
}

#[test]
fn test_format_mode_line_frame_name_f_spec_prefers_title_and_preserves_raw_unibyte_value() {
    let mut s = session();
    let buffer_id = s.ui.buffers.create_buffer("frame-title-test");
    s.ui.buffers.set_current(buffer_id);

    let frame_id = frame(&mut s.ui, "frame-name", 80, 24, buffer_id);
    let i = s.ui.frames.index_of(frame_id);
    s.ui.frames.list[i].set_title(unibyte(vec![0xFF, b'-', b'F']));

    let (_, rendered) = render(s, vec![plain("%F")]);
    let t = rendered.as_lisp_string().expect("string");
    assert!(!t.is_multibyte());
    assert_eq!(t.as_bytes(), &[0xFF, b'-', b'F']);
}

#[test]
fn test_format_mode_line_frame_name_f_spec_defaults_to_emacs_without_frame() {
    let (_, rendered) = render(session(), vec![plain("%F")]);
    assert_eq!(rendered, plain("Emacs"));
}

#[test]
fn test_format_mode_line_frame_name_f_spec_uses_emacs_for_gui_frame_without_explicit_name() {
    let mut s = session();
    let buffer_id = s.ui.buffers.create_buffer("frame-name-default-test");
    s.ui.buffers.set_current(buffer_id);

    let frame_id = frame(&mut s.ui, "F1", 80, 24, buffer_id);
    let i = s.ui.frames.index_of(frame_id);
    s.ui.frames.list[i].set_window_system(Some(symbol("x")));

    let (mut s, rendered) = render(s, vec![plain("%F")]);
    assert_eq!(rendered, plain("Emacs"));
    s.ui.frames.list[i].set_window_system(None);
    let (_, rendered) = render(s, vec![plain("%F")]);
    assert_eq!(rendered, plain("F1"));
}

#[test]
fn test_format_mode_line_remote_at_spec_matches_gnu() {
    let mut s = session();
    let buffer_id = s.ui.buffers.create_buffer("remote-test");
    s.ui.buffers.set_current(buffer_id);

    set_local(&mut s, buffer_id, "default-directory", plain("/home/user"));
    let (mut s, local) = render(s, vec![plain("%@")]);
    assert_eq!(local, plain("-"));

    set_local(
        &mut s,
        buffer_id,
        "default-directory",
        plain("/ssh:host:/home/user"),
    );
    let (mut s, remote) = render(s, vec![plain("%@")]);
    assert_eq!(remote, plain("@"));

    set_local(&mut s, buffer_id, "default-directory", plain("/a:b"));
    let (mut s, short) = render(s, vec![plain("%@")]);
    assert_eq!(short, plain("-"));

    set_local(&mut s, buffer_id, "default-directory", plain("/Ssh:b"));
    let (_, upper) = render(s, vec![plain("%@")]);
    assert_eq!(upper, plain("-"));
}

#[test]
fn test_format_mode_line_remote_at_spec_accepts_raw_unibyte_default_directory() {
    let mut s = session();
    let buffer_id = s.ui.buffers.create_buffer("remote-raw-test");
    s.ui.buffers.set_current(buffer_id);
    let mut remote_dir = b"/ssh:host:/home/user".to_vec();
    remote_dir.push(0xFF);
    set_local(&mut s, buffer_id, "default-directory", unibyte(remote_dir));

    let (_, remote) = render(s, vec![plain("%@")]);
    assert_eq!(remote, plain("@"));
}

#[test]
fn test_format_mode_line_coding_system_z_and_big_z_specs_match_gnu() {
    let mut s = session();
    let buffer_id = s.ui.buffers.create_buffer("coding-test");
    s.ui.buffers.set_current(buffer_id);

    set_local(
        &mut s,
        buffer_id,
        "buffer-file-coding-system",
        symbol("utf-8-unix"),
    );
    let (mut s, z) = render(s, vec![plain("%z|%Z")]);
    assert_eq!(z, plain("U|U:"));

    set_local(
        &mut s,
        buffer_id,
        "buffer-file-coding-system",
        symbol("undecided-dos"),
    );
    let (_, dos) = render(s, vec![plain("%z|%Z")]);
    assert_eq!(dos, plain("-|-\\"));
}

#[test]
fn test_format_mode_line_big_z_preserves_raw_unibyte_eol_indicator() {
    let mut s = session();
    let buffer_id = s.ui.buffers.create_buffer("coding-raw-eol-test");
    s.ui.buffers.set_current(buffer_id);

    set_local(
        &mut s,
        buffer_id,
        "buffer-file-coding-system",
        symbol("undecided-dos"),
    );
    s.obarray
        .set_symbol_value("eol-mnemonic-dos", unibyte(vec![0xFF]));

    let (_, rendered) = render(s, vec![plain("%Z")]);
    let t = rendered.as_lisp_string().expect("string");
    assert!(!t.is_multibyte());
    assert_eq!(t.as_bytes(), &[b'-', 0xFF]);
}

fn tty_session(name: &str) -> Session {
    let mut s = session();
    let buffer_id = s.ui.buffers.create_buffer(name);
    s.ui.buffers.set_current(buffer_id);
    frame(&mut s.ui, "tty-coding-frame", 80, 24, buffer_id);
    set_local(
        &mut s,
        buffer_id,
        "buffer-file-coding-system",
        symbol("utf-8-unix"),
    );
    s.obarray
        .set_symbol_value("terminal-coding-system", Value::Nil);
    s.obarray
        .set_symbol_value("keyboard-coding-system", Value::Nil);
    s
}

#[test]
fn test_format_mode_line_tty_z_uses_live_coding_manager_state() {
    let (s, rendered) = render(tty_session("tty-coding-test"), vec![plain("%z")]);
    assert_eq!(rendered, plain("UUU"));
    let (_, by_variables) = format_mode_line_from_state(s, &vec![plain("%z")]);
    assert_eq!(by_variables, Ok(Some(plain("--U"))));
}

#[test]
fn test_format_mode_line_tty_z_reads_visible_buffer_file_coding_value_without_local_flag() {
    let (_, rendered) = render(
        tty_session("tty-coding-visible-slot-test"),
        vec![plain("%z")],
    );
    assert_eq!(rendered, plain("UUU"));
}

#[test]
fn test_format_mode_line_tty_big_z_uses_live_coding_manager_state_and_eol_indicator() {
    let (_, rendered) = render(tty_session("tty-coding-big-z-test"), vec![plain("%Z")]);
    assert_eq!(rendered, plain("UUU:"));
}

#[test]
fn test_format_mode_line_propertize_display_min_width_matches_gnu_spacing() {
    let display = list(vec![
        symbol("min-width"),
        list(vec![Value::Float(6.0f64.to_bits())]),
    ]);
    let format = list(vec![
        symbol(":propertize"),
        plain("All"),
        symbol("display"),
        display,
    ]);

    let (_, rendered) = render(session(), vec![format]);
    assert_eq!(text(&rendered), "All   ");
}

#[test]
fn test_format_mode_line_position_o_and_q_specs() {
    let mut s = session();
    let buffer_id = s.ui.buffers.create_buffer("pos-test");
    s.ui.buffers.set_current(buffer_id);

    let (mut s, empty) = render(s, vec![plain("%o|%q")]);
    assert_eq!(empty, plain("All|All   "));

    insert(&mut s.ui, buffer_id, &"x".repeat(100));
    let (mut s, all_visible) = render(s, vec![plain("%o|%p")]);
    assert_eq!(all_visible, plain("All|All"));

    let frame_id = frame(&mut s.ui, "pos-frame", 80, 24, buffer_id);
    let window = selected_window(&s.ui, frame_id);
    change_leaf(&mut s.ui, frame_id, window, |l| l.window_start = 20);

    let (mut s, mid) = render(
        s,
        vec![plain("%o|%p|%P"), Value::Nil, Value::Window(window)],
    );
    assert_eq!(mid, plain("Bottom|Bottom|Bottom"));

    change_leaf(&mut s.ui, frame_id, window, |l| l.window_start = 0);
    let (mut s, at_top) = render(
        s,
        vec![plain("%o|%p"), Value::Nil, Value::Window(window)],
    );
    assert_eq!(at_top, plain("All|All"));

    change_leaf(&mut s.ui, frame_id, window, |l| {
        l.window_start = 21;
        l.window_end_pos = 41;
    });
    let (mut s, middle) = render(
        s,
        vec![plain("%o|%p|%P|%q"), Value::Nil, Value::Window(window)],
    );
    assert_eq!(middle, plain("34%|20%|Top60%|20-60%"));

    change_leaf(&mut s.ui, frame_id, window, |l| l.window_start = 1);
    let (_, top) = render(
        s,
        vec![plain("%o|%p|%P|%q"), Value::Nil, Value::Window(window)],
    );
    assert_eq!(top, plain("Top|Top|60%|0-60%"));
}

#[test]
fn test_format_mode_line_percent_specs_use_window_buffer_and_completed_window_end() {
    let mut s = session();
    let target_id = s.ui.buffers.create_buffer("window-target");
    insert(&mut s.ui, target_id, &"x".repeat(100));
    let other_id = s.ui.buffers.create_buffer("other-buffer");
    insert(&mut s.ui, other_id, &"y".repeat(1000));
    let frame_id = frame(&mut s.ui, "pos-frame", 80, 24, target_id);
    let window = selected_window(&s.ui, frame_id);
    change_leaf(&mut s.ui, frame_id, window, |l| {
        l.window_start = 20;
        l.window_end_pos = 1;
    });
    s.ui.buffers.set_current(other_id);

    let (_, rendered) = render(
        s,
        vec![plain("%o|%p|%P"), Value::Nil, Value::Window(window)],
    );
    assert_eq!(rendered, plain("Bottom|Bottom|Bottom"));
}

#[test]
fn display_mode_fills_the_row_with_dashes() {
    let s = session();
    let (s, rendered) = format_mode_line_for_display(
        s,
        &evaluate,
        &plain("ab%-"),
        &Value::Nil,
        &Value::Nil,
        7,
    );
    assert_eq!(rendered, plain("ab-----"));
    let (s, full) = format_mode_line_for_display(
        s,
        &evaluate,
        &plain("abcdefg%-"),
        &Value::Nil,
        &Value::Nil,
        7,
    );
    assert_eq!(full, plain("abcdefg--"));
    let (s, no_window) = format_mode_line_for_display(
        s,
        &evaluate,
        &plain("ab"),
        &plain("no window"),
        &Value::Nil,
        7,
    );
    assert_eq!(no_window, plain(""));
    let (_, nothing) =
        format_mode_line_for_display(s, &evaluate, &Value::Nil, &Value::Nil, &Value::Nil, 7);
    assert_eq!(nothing, plain(""));
}

#[test]
fn display_mode_shows_nothing_where_an_evaluation_fails() {
    let mut s = session();
    let saved = current(&s);
    let other = s.ui.buffers.create_buffer("*shown*");
    let (s, rendered) = format_mode_line_for_display(
        s,
        &evaluate,
        &list(vec![plain("abc"), boom(), plain("def")]),
        &Value::Nil,
        &Value::Buffer(other),
        10,
    );
    assert_eq!(rendered, plain(""));
    assert_eq!(current(&s), saved);
    let (s, nested) = format_mode_line_for_display(
        s,
        &evaluate,
        &list(vec![
            plain("abc"),
            list(vec![
                symbol(":propertize"),
                list(vec![plain("x"), boom()]),
                symbol("face"),
                symbol("bold"),
            ]),
        ]),
        &Value::Nil,
        &Value::Buffer(other),
        10,
    );
    assert_eq!(nested, plain(""));
    assert_eq!(current(&s), saved);
    let (s, rendered) = format_mode_line_for_display(
        s,
        &evaluate,
        &list(vec![
            plain("%b "),
            list(vec![symbol(":eval"), symbol("mode-name")]),
            plain("%-"),
        ]),
        &Value::Nil,
        &Value::Buffer(other),
        22,
    );
    assert_eq!(rendered, plain("*shown* Fundamental---"));
    assert_eq!(current(&s), saved);
}

#[test]
fn display_mode_evaluates_nothing_after_a_failure() {
    let count = |mut s: Session, form: Value| -> (Session, Result<Value, Flow>) {
        let n = match s.obarray.symbol_value("asked") {
            Some(Value::Int(n)) => n,
            _ => 0,
        };
        s.obarray.set_symbol_value("asked", Value::fixnum(n + 1));
        evaluate(s, form)
    };
    let asked = |form: Value| list(vec![symbol(":eval"), form]);
    let (s, rendered) = format_mode_line_for_display(
        session(),
        &count,
        &list(vec![
            asked(plain("a")),
            boom(),
            asked(plain("b")),
        ]),
        &Value::Nil,
        &Value::Nil,
        10,
    );
    assert_eq!(rendered, plain(""));
    assert_eq!(s.obarray.symbol_value("asked"), Some(Value::fixnum(2)));
}

#[test]
fn line_without_forms_is_the_same_with_and_without_evaluation() {
    let never = |_s: Session, _form: Value| -> (Session, Result<Value, Flow>) {
        panic!("nothing is to be evaluated")
    };
    let args = || {
        vec![list(vec![
            plain("%b "),
            list(vec![
                symbol(":propertize"),
                plain("bold"),
                symbol("face"),
                symbol("bold"),
            ]),
            list(vec![Value::fixnum(5), plain("pad")]),
            symbol("untrusted"),
        ])]
    };
    let with_variable = || {
        let mut s = session();
        s.obarray.set_symbol_value("untrusted", list(vec![plain("u"), boom()]));
        s
    };
    let (_, bare) = format_mode_line_from_state(with_variable(), &args());
    let bare = bare.expect("no error").expect("nothing to evaluate");
    let (_, evaluated) =
        finish_format_mode_line_in_state_with_eval(with_variable(), &never, &args());
    assert_eq!(evaluated, Ok(bare.copy()));
    assert_eq!(text(&bare), "*scratch* boldpad  u");
    assert_eq!(property(&bare, 10, "face"), Some(symbol("bold")));
    let mut trusted = with_variable();
    trusted
        .obarray
        .put_property("untrusted", "risky-local-variable", Value::True);
    let (_, given_up) = format_mode_line_from_state(trusted, &args());
    assert_eq!(given_up, Ok(None));
}

#[test]
fn endless_formats_stop() {
    let mut s = session();
    s.obarray.set_symbol_value("loop", symbol("loop"));
    let (_, rendered) = render(s, vec![list(vec![plain("a"), symbol("loop"), plain("b")])]);
    assert_eq!(rendered, plain("ab"));
}

#[test]
fn mode_line_of_a_dead_buffer_is_an_error() {
    let mut s = session();
    let id = current(&s);
    let frame_id = frame(&mut s.ui, "f", 80, 24, id);
    let window = selected_window(&s.ui, frame_id);
    change_leaf(&mut s.ui, frame_id, window, |l| l.buffer_id = 999);
    let (s, r) = line(s, vec![plain("%b"), Value::Nil, Value::Window(window)]);
    assert_eq!(
        error_data(r),
        list(vec![plain("Selecting deleted buffer")])
    );
    let (_, shown) = format_mode_line_for_display(
        s,
        &evaluate,
        &plain("%b"),
        &Value::Window(window),
        &Value::Nil,
        10,
    );
    assert_eq!(shown, plain(""));
}

// ---------------------------------------------------------------------------
// Other builtins
// ---------------------------------------------------------------------------

#[test]
fn test_invisible_p() {
    let err = builtin_invisible_p(&vec![Value::fixnum(0)]);
    assert_eq!(error_name(err), "args-out-of-range");
    let result = builtin_invisible_p(&vec![Value::fixnum(1)]).unwrap();
    assert!(result.is_nil());

    let result = builtin_invisible_p(&vec![symbol("invisible")]).unwrap();
    assert!(result.is_truthy());

    let result = builtin_invisible_p(&vec![Value::fixnum(-1)]).unwrap();
    assert!(result.is_truthy());

    let result = builtin_invisible_p(&vec![Value::Nil]).unwrap();
    assert!(result.is_nil());

    let result = builtin_invisible_p(&vec![plain("x")]).unwrap();
    assert!(result.is_truthy());

    let result = builtin_invisible_p(&vec![Value::Float(1.5f64.to_bits())]).unwrap();
    assert!(result.is_truthy());
}

#[test]
fn test_line_pixel_height() {
    let result = builtin_line_pixel_height(&vec![]).unwrap();
    assert_eq!(result, Value::fixnum(1));
}

#[test]
fn test_window_text_pixel_size() {
    let result = builtin_window_text_pixel_size(&vec![]).unwrap();
    assert_eq!(result, Value::cons(Value::fixnum(0), Value::fixnum(0)));
}

#[test]
fn test_window_text_pixel_size_arg_validation() {
    let err = builtin_window_text_pixel_size(&vec![Value::fixnum(1)]);
    assert_eq!(error_name(err), "wrong-type-argument");

    let err = builtin_window_text_pixel_size(&vec![Value::Nil, symbol("x")]);
    assert_eq!(error_name(err), "wrong-type-argument");

    let err = builtin_window_text_pixel_size(&vec![Value::Nil, Value::Nil, symbol("x")]);
    assert_eq!(error_name(err), "wrong-type-argument");

    // X-LIMIT / Y-LIMIT / MODE / PIXELWISE are accepted without strict type checks.
    assert!(builtin_window_text_pixel_size(&vec![
        Value::Nil,
        Value::Nil,
        Value::Nil,
        symbol("x"),
        symbol("y"),
        symbol("z"),
        symbol("m"),
    ])
    .is_ok());
}

#[test]
fn test_window_text_pixel_size_eval_window_validation() {
    let mut s = session();
    let buf_id = current(&s);
    let frame_id = frame(&mut s.ui, "xdisp-test", 80, 24, buf_id);
    let window = selected_window(&s.ui, frame_id) as i64;

    let ok = builtin_window_text_pixel_size_ctx(&s.ui, &vec![Value::fixnum(window)]).unwrap();
    assert!(ok.is_cons());

    let err = builtin_window_text_pixel_size_ctx(&s.ui, &vec![Value::fixnum(999_999)]);
    assert_eq!(error_name(err), "wrong-type-argument");
}

fn cell_session(t: &str) -> (Session, i64) {
    let mut s = session();
    let buf_id = current(&s);
    let frame_id = frame(&mut s.ui, "xdisp-test", 80, 24, buf_id);
    let i = s.ui.frames.index_of(frame_id);
    s.ui.frames.list[i].char_width = 1;
    s.ui.frames.list[i].char_height = 1;
    s.ui.frames.list[i].font_pixel_size = 1;
    s.ui.frames.list[i].set_window_system(None);
    insert(&mut s.ui, buf_id, t);
    let window = selected_window(&s.ui, frame_id) as i64;
    (s, window)
}

fn with_mode_line(window: i64) -> Vec<Value> {
    vec![
        Value::fixnum(window),
        Value::Nil,
        Value::True,
        Value::Nil,
        Value::fixnum(24),
        Value::True,
    ]
}

#[test]
fn test_window_text_pixel_size_tty_frame_uses_char_cell_metrics() {
    let (s, window) = cell_session("tiny\n");
    let result = builtin_window_text_pixel_size_ctx(&s.ui, &with_mode_line(window)).unwrap();
    assert!(result.is_cons());
    assert_eq!(result.car(), Value::fixnum(4));
    assert_eq!(result.cdr(), Value::fixnum(2));
}

#[test]
fn test_window_text_pixel_size_matches_gnu_trailing_line_semantics() {
    let (s, window) = cell_session("hello\nworld\n\n");
    let result = builtin_window_text_pixel_size_ctx(&s.ui, &vec![Value::fixnum(window)]).unwrap();
    assert!(result.is_cons());
    assert_eq!(result.car(), Value::fixnum(5));
    assert_eq!(result.cdr(), Value::fixnum(3));

    let result = builtin_window_text_pixel_size_ctx(&s.ui, &with_mode_line(window)).unwrap();
    assert!(result.is_cons());
    assert_eq!(result.car(), Value::fixnum(5));
    assert_eq!(
        result.cdr(),
        Value::fixnum(3),
        "TO=t trims trailing blank lines before adding the mode line"
    );
}

#[test]
fn text_size_counts_tabs_and_regions() {
    let (s, window) = cell_session("a\tb\nlonger line here\nc");
    let size = |args: Vec<Value>| print(&builtin_window_text_pixel_size_ctx(&s.ui, &args).unwrap());
    assert_eq!(size(vec![Value::fixnum(window)]), "(16 . 3)");
    assert_eq!(
        size(vec![Value::Nil, Value::fixnum(1), Value::fixnum(4)]),
        "(9 . 1)"
    );
    assert_eq!(
        size(vec![Value::Nil, Value::fixnum(4), Value::fixnum(2)]),
        "(0 . 1)"
    );
}

#[test]
fn text_size_takes_positions_in_bytes() {
    let (s, window) = cell_session("\u{e9}\u{e9}\u{e9}\nab\n \n");
    let size = |args: Vec<Value>| print(&builtin_window_text_pixel_size_ctx(&s.ui, &args).unwrap());
    assert_eq!(size(vec![Value::fixnum(window)]), "(3 . 3)");
    assert_eq!(
        size(vec![Value::Nil, Value::fixnum(1), Value::fixnum(5)]),
        "(2 . 1)"
    );
    assert_eq!(
        size(vec![Value::Nil, Value::fixnum(3), Value::fixnum(7)]),
        "(2 . 1)"
    );
    assert_eq!(
        size(vec![Value::Nil, Value::fixnum(5), Value::fixnum(10)]),
        "(2 . 2)"
    );
    assert_eq!(size(vec![Value::Nil, Value::fixnum(8), Value::True]), "(2 . 1)");
}

#[test]
fn test_pos_visible_in_window_p() {
    let result = builtin_pos_visible_in_window_p(&vec![Value::fixnum(1)]).unwrap();
    assert!(result.is_nil());

    let result = builtin_pos_visible_in_window_p(&vec![Value::fixnum(100), symbol("window")]);
    assert_eq!(error_data(result).car(), symbol("window-live-p"));

    let result = builtin_pos_visible_in_window_p(&vec![symbol("left"), Value::fixnum(1)]);
    assert_eq!(error_data(result).car(), symbol("window-live-p"));

    let result = builtin_pos_visible_in_window_p(&vec![symbol("left")]);
    assert_eq!(error_data(result).car(), symbol("integer-or-marker-p"));

    let result =
        builtin_pos_visible_in_window_p(&vec![Value::fixnum(1), Value::Nil, Value::fixnum(1)])
            .unwrap();
    assert!(result.is_nil());
}

#[test]
fn test_pos_visible_in_window_p_eval_window_validation() {
    let s = session();
    let err = builtin_pos_visible_in_window_p_ctx(&s.ui, &vec![Value::Nil, plain("x")]);
    assert_eq!(error_name(err), "wrong-type-argument");

    let err =
        builtin_pos_visible_in_window_p_ctx(&s.ui, &vec![symbol("left"), Value::fixnum(1)]);
    assert_eq!(error_data(err).car(), symbol("window-live-p"));

    let ok = builtin_pos_visible_in_window_p_ctx(&s.ui, &vec![Value::fixnum(1)]).unwrap();
    assert!(ok.is_nil());
}

fn three_lines(name: &str) -> (Session, u64) {
    let mut s = session();
    let buf_id = current(&s);
    let frame_id = frame(&mut s.ui, name, 160, 64, buf_id);
    let window = selected_window(&s.ui, frame_id);
    insert(&mut s.ui, buf_id, "abc\ndef\nghi\n");
    goto(&mut s.ui, buf_id, 4);
    change_leaf(&mut s.ui, frame_id, window, |l| {
        l.window_start = 1;
        l.point = 5;
    });
    (s, window)
}

#[test]
fn test_pos_visible_in_window_p_eval_returns_partial_geometry_for_live_window() {
    let (s, window) = three_lines("xdisp-pos");
    let result = builtin_pos_visible_in_window_p_ctx(
        &s.ui,
        &vec![Value::fixnum(5), Value::Window(window), Value::True],
    )
    .unwrap();
    assert_eq!(print(&result), "(0 16)");

    let hidden =
        builtin_pos_visible_in_window_p_ctx(&s.ui, &vec![Value::fixnum(13), Value::Nil]).unwrap();
    assert!(hidden.is_nil());
    let column = builtin_pos_visible_in_window_p_ctx(
        &s.ui,
        &vec![Value::fixnum(7), Value::Nil, Value::True],
    )
    .unwrap();
    assert_eq!(print(&column), "(16 16)");
    let whole = builtin_pos_visible_in_window_p_ctx(&s.ui, &vec![Value::True]).unwrap();
    assert_eq!(whole, Value::True);
}

#[test]
fn test_window_line_height_eval_returns_live_gui_row_metrics() {
    let (s, window) = three_lines("xdisp-line-height");
    let current = builtin_window_line_height(&s.ui, &vec![Value::Nil, Value::Window(window)])
        .unwrap();
    let last =
        builtin_window_line_height(&s.ui, &vec![Value::fixnum(-1), Value::Window(window)])
            .unwrap();
    assert_eq!(print(&current), "(16 1 16 0)");
    assert_eq!(print(&last), "(16 1 16 0)");

    let mode_line =
        builtin_window_line_height(&s.ui, &vec![symbol("mode-line"), Value::Window(window)])
            .unwrap();
    assert_eq!(print(&mode_line), "(16 0 32 0)");
    let beyond = builtin_window_line_height(&s.ui, &vec![Value::fixnum(2)]).unwrap();
    assert!(beyond.is_nil());
    let wrong = builtin_window_line_height(&s.ui, &vec![plain("x")]);
    assert_eq!(error_data(wrong).car(), symbol("integerp"));
}

fn point(buffer_pos: usize, x: i64, y: i64, size: (i64, i64), row: i64, col: i64) -> DisplayPointSnapshot {
    DisplayPointSnapshot {
        buffer_pos,
        x,
        y,
        width: size.0,
        height: size.1,
        row,
        col,
    }
}

fn row(row: i64, y: i64, height: i64, start: usize, end: usize) -> DisplayRowSnapshot {
    DisplayRowSnapshot {
        row,
        y,
        height,
        start_x: 0,
        start_col: 0,
        end_x: 0,
        end_col: 0,
        start_buffer_pos: Some(start),
        end_buffer_pos: Some(end),
    }
}

fn draw(
    s: &mut Session,
    frame_id: u64,
    window: u64,
    points: Vec<DisplayPointSnapshot>,
    rows: Vec<DisplayRowSnapshot>,
) {
    let i = s.ui.frames.index_of(frame_id);
    s.ui.frames.list[i].replace_display_snapshots(vec![WindowDisplaySnapshot {
        window_id: window,
        text_area_left_offset: 8,
        points,
        rows,
    }]);
}

fn drawn_session(name: &str, h: u32, t: &str, byte: usize) -> (Session, u64, u64) {
    let mut s = session();
    let buf_id = current(&s);
    let frame_id = frame(&mut s.ui, name, 160, h, buf_id);
    let window = selected_window(&s.ui, frame_id);
    insert(&mut s.ui, buf_id, t);
    goto(&mut s.ui, buf_id, byte);
    (s, frame_id, window)
}

#[test]
fn test_posn_at_point_eval_uses_exact_redisplay_snapshot() {
    let (mut s, frame_id, window) = drawn_session("xdisp-posn", 64, "abcdef\n", 4);
    change_leaf(&mut s.ui, frame_id, window, |l| {
        l.window_start = 1;
        l.point = 5;
    });
    draw(
        &mut s,
        frame_id,
        window,
        vec![point(5, 24, 18, (21, 30), 1, 3)],
        vec![row(1, 18, 30, 5, 5)],
    );

    let result =
        builtin_posn_at_point(&s.ui, &vec![Value::fixnum(5), Value::Window(window)]).unwrap();
    assert_eq!(
        print(&result),
        "(#<window 1> 5 (24 . 18) 0 nil 5 (3 . 1) nil (0 . 0) (21 . 30))"
    );

    let exact = builtin_window_line_height(&s.ui, &vec![Value::Nil]).unwrap();
    assert_eq!(print(&exact), "(30 1 18 0)");
    let visible = builtin_pos_visible_in_window_p_ctx(
        &s.ui,
        &vec![Value::fixnum(5), Value::Nil, Value::True],
    )
    .unwrap();
    assert_eq!(print(&visible), "(24 18)");
}

#[test]
fn test_posn_at_x_y_eval_uses_exact_redisplay_snapshot() {
    let (mut s, frame_id, window) = drawn_session("xdisp-posn-xy", 64, "abcdef\n", 4);
    draw(
        &mut s,
        frame_id,
        window,
        vec![point(5, 24, 18, (21, 30), 1, 3)],
        vec![row(1, 18, 30, 5, 5)],
    );

    let text_relative = builtin_posn_at_x_y(
        &s.ui,
        &vec![
            Value::fixnum(30),
            Value::fixnum(20),
            Value::Window(window),
            Value::Nil,
        ],
    )
    .unwrap();
    assert_eq!(
        print(&text_relative),
        "(#<window 1> 5 (24 . 18) 0 nil 5 (3 . 1) nil (0 . 0) (21 . 30))"
    );

    let whole_window = builtin_posn_at_x_y(
        &s.ui,
        &vec![
            Value::fixnum(38),
            Value::fixnum(20),
            Value::Window(window),
            Value::True,
        ],
    )
    .unwrap();
    assert_eq!(
        print(&whole_window),
        "(#<window 1> 5 (24 . 18) 0 nil 5 (3 . 1) nil (0 . 0) (21 . 30))"
    );

    let by_frame = builtin_posn_at_x_y(
        &s.ui,
        &vec![
            Value::fixnum(38),
            Value::fixnum(20),
            Value::fixnum(frame_id as i64),
        ],
    )
    .unwrap();
    assert_eq!(by_frame.cdr().car(), Value::fixnum(5));

    let outside =
        builtin_posn_at_x_y(&s.ui, &vec![Value::fixnum(23), Value::fixnum(20)]).unwrap();
    assert!(outside.is_nil());
    let wrong = builtin_posn_at_x_y(&s.ui, &vec![plain("x"), Value::fixnum(20)]);
    assert_eq!(error_data(wrong).car(), symbol("fixnump"));
    let gone = builtin_posn_at_x_y(
        &s.ui,
        &vec![Value::fixnum(23), Value::fixnum(20), Value::Window(987654)],
    );
    assert_eq!(error_data(gone).car(), symbol("framep"));
}

#[test]
fn test_posn_at_point_eval_returns_nil_outside_visible_snapshot_span() {
    let (mut s, frame_id, window) =
        drawn_session("xdisp-posn-offscreen", 64, "abcdefghijklmnopqrstuvwxyz\n", 0);
    draw(
        &mut s,
        frame_id,
        window,
        vec![
            point(10, 24, 18, (8, 16), 0, 2),
            point(14, 56, 18, (8, 16), 0, 6),
        ],
        vec![row(0, 18, 16, 10, 14)],
    );

    let at = |pos: i64| {
        builtin_posn_at_point(&s.ui, &vec![Value::fixnum(pos), Value::Window(window)]).unwrap()
    };
    assert!(at(5).is_nil());
    assert!(at(20).is_nil());
    assert_eq!(
        print(&at(12)),
        "(#<window 1> 14 (56 . 18) 0 nil 14 (6 . 0) nil (0 . 0) (8 . 16))"
    );
}

#[test]
fn test_posn_at_point_eval_returns_nil_for_positions_missing_entire_visible_row() {
    let (mut s, frame_id, window) = drawn_session("xdisp-posn-missing-row", 96, "abcdef\n", 0);
    draw(
        &mut s,
        frame_id,
        window,
        vec![
            point(1, 0, 0, (8, 16), 0, 0),
            point(4, 0, 18, (8, 16), 1, 0),
        ],
        vec![row(0, 0, 16, 1, 1), row(1, 18, 16, 4, 4)],
    );

    let missing =
        builtin_posn_at_point(&s.ui, &vec![Value::fixnum(2), Value::Window(window)]).unwrap();
    assert!(missing.is_nil());
}

#[test]
fn test_move_point_visually() {
    for direction in [1_i64, 0, -1, 2] {
        let err = builtin_move_point_visually(&vec![Value::fixnum(direction)]);
        assert_eq!(error_name(err), "args-out-of-range");
    }

    let err = builtin_move_point_visually(&vec![Value::character('a')]);
    assert_eq!(error_name(err), "args-out-of-range");

    let err = builtin_move_point_visually(&vec![symbol("left")]);
    assert_eq!(error_name(err), "wrong-type-argument");
}

#[test]
fn test_lookup_image_map() {
    let result =
        builtin_lookup_image_map(&vec![symbol("map"), Value::fixnum(10), Value::fixnum(20)])
            .unwrap();
    assert!(result.is_nil());

    let err = builtin_lookup_image_map(&vec![symbol("image"), plain("x"), symbol("y")]);
    assert_eq!(error_name(err), "wrong-type-argument");

    let err = builtin_lookup_image_map(&vec![symbol("image"), Value::fixnum(1), symbol("y")]);
    assert_eq!(error_name(err), "wrong-type-argument");

    let result =
        builtin_lookup_image_map(&vec![Value::Nil, Value::fixnum(1), plain("y")]).unwrap();
    assert!(result.is_nil());

    let err = builtin_lookup_image_map(&vec![]);
    assert_eq!(error_name(err), "wrong-number-of-arguments");
}

#[test]
fn test_current_bidi_paragraph_direction() {
    let result = builtin_current_bidi_paragraph_direction(&vec![]).unwrap();
    assert_eq!(result, symbol("left-to-right"));

    let result = builtin_current_bidi_paragraph_direction(&vec![Value::Buffer(1)]).unwrap();
    assert_eq!(result, symbol("left-to-right"));

    let err = builtin_current_bidi_paragraph_direction(&vec![symbol("buffer")]);
    assert_eq!(error_name(err), "wrong-type-argument");
}

#[test]
fn test_bidi_resolved_levels() {
    assert!(builtin_bidi_resolved_levels(&vec![]).unwrap().is_nil());
    assert!(builtin_bidi_resolved_levels(&vec![Value::Nil])
        .unwrap()
        .is_nil());
    assert!(builtin_bidi_resolved_levels(&vec![Value::fixnum(0)])
        .unwrap()
        .is_nil());

    match builtin_bidi_resolved_levels(&vec![Value::True]).unwrap_err() {
        Flow::Signal(sig) => {
            assert_eq!(sig.symbol_name(), "wrong-type-argument");
            assert_eq!(sig.data, list(vec![symbol("fixnump"), Value::True]));
        }
    }
}

#[test]
fn test_bidi_find_overridden_directionality() {
    assert!(builtin_bidi_find_overridden_directionality(&vec![
        plain("abc"),
        Value::fixnum(0),
        plain("x"),
    ])
    .unwrap()
    .is_nil());
    assert!(builtin_bidi_find_overridden_directionality(&vec![
        Value::Nil,
        Value::fixnum(0),
        plain("x"),
    ])
    .unwrap()
    .is_nil());
    assert!(builtin_bidi_find_overridden_directionality(&vec![
        Value::fixnum(1),
        Value::fixnum(2),
        Value::Nil,
    ])
    .unwrap()
    .is_nil());

    match builtin_bidi_find_overridden_directionality(&vec![
        plain("abc"),
        Value::fixnum(0),
        Value::fixnum(3),
    ])
    .unwrap_err()
    {
        Flow::Signal(sig) => {
            assert_eq!(sig.symbol_name(), "wrong-type-argument");
            assert_eq!(sig.data, list(vec![symbol("stringp"), Value::fixnum(3)]));
        }
    }

    match builtin_bidi_find_overridden_directionality(&vec![
        Value::Nil,
        Value::fixnum(2),
        Value::Nil,
    ])
    .unwrap_err()
    {
        Flow::Signal(sig) => {
            assert_eq!(sig.symbol_name(), "wrong-type-argument");
            assert_eq!(
                sig.data,
                list(vec![symbol("integer-or-marker-p"), Value::Nil])
            );
        }
    }
}

#[test]
fn test_move_to_window_line() {
    // Without a selected frame, move-to-window-line should signal an error.
    let mut s = session();
    for a in [Value::fixnum(1), Value::fixnum(0), symbol("left")] {
        let err = builtin_move_to_window_line(&mut s.ui, &vec![a]);
        assert_eq!(error_name(err), "error");
    }
}

#[test]
fn move_to_window_line_counts_from_both_ends() {
    let (mut s, _) = three_lines("xdisp-move");
    let id = current(&s);
    let moved = |s: &mut Session, a: Value| {
        let r = builtin_move_to_window_line(&mut s.ui, &vec![a]).unwrap();
        (r, s.ui.buffers.get(id).unwrap().pt)
    };
    assert_eq!(moved(&mut s, Value::fixnum(0)), (Value::fixnum(0), 0));
    assert_eq!(moved(&mut s, Value::fixnum(1)), (Value::fixnum(1), 4));
    assert_eq!(moved(&mut s, Value::fixnum(9)), (Value::fixnum(1), 4));
    assert_eq!(moved(&mut s, Value::fixnum(-1)), (Value::fixnum(1), 4));
    assert_eq!(moved(&mut s, Value::fixnum(-9)), (Value::fixnum(0), 0));
    assert_eq!(moved(&mut s, Value::Nil), (Value::fixnum(1), 4));
    let err = builtin_move_to_window_line(&mut s.ui, &vec![symbol("left")]);
    assert_eq!(error_data(err).car(), symbol("integerp"));
}

#[test]
fn test_tool_bar_height() {
    let result = builtin_tool_bar_height(&vec![]).unwrap();
    assert_eq!(result, Value::fixnum(0));

    let result = builtin_tool_bar_height(&vec![symbol("frame")]).unwrap();
    assert_eq!(result, Value::fixnum(0));
}

#[test]
fn test_tool_bar_height_eval_frame_validation() {
    let mut s = session();
    let buf_id = current(&s);
    let frame_id = frame(&mut s.ui, "xdisp-test", 80, 24, buf_id);

    let i = s.ui.frames.index_of(frame_id);
    s.ui.frames.list[i].char_height = 17;
    s.ui.frames.list[i].set_parameter("tool-bar-lines", Value::fixnum(2));
    s.ui.frames.list[i].sync_bar_heights_from_parameters();

    let result =
        builtin_tool_bar_height_ctx(&mut s.ui, &vec![Value::fixnum(frame_id as i64)]).unwrap();
    assert_eq!(result, Value::fixnum(2));

    let pixelwise = builtin_tool_bar_height_ctx(
        &mut s.ui,
        &vec![Value::fixnum(frame_id as i64), Value::True],
    )
    .unwrap();
    assert_eq!(pixelwise, Value::fixnum(34));

    let err = builtin_tool_bar_height_ctx(&mut s.ui, &vec![plain("x")]);
    assert_eq!(error_name(err), "wrong-type-argument");
}

#[test]
fn test_tab_bar_height() {
    let result = builtin_tab_bar_height(&vec![]).unwrap();
    assert_eq!(result, Value::fixnum(0));

    let result = builtin_tab_bar_height(&vec![symbol("frame")]).unwrap();
    assert_eq!(result, Value::fixnum(0));
}

#[test]
fn test_tab_bar_height_eval_frame_validation() {
    let mut s = session();
    let buf_id = current(&s);
    let frame_id = frame(&mut s.ui, "xdisp-test", 80, 24, buf_id);

    let result =
        builtin_tab_bar_height_ctx(&mut s.ui, &vec![Value::fixnum(frame_id as i64)]).unwrap();
    assert_eq!(result, Value::fixnum(0));

    let err = builtin_tab_bar_height_ctx(&mut s.ui, &vec![plain("x")]);
    assert_eq!(error_name(err), "wrong-type-argument");
}

#[test]
fn test_tab_bar_height_eval_reflects_tab_bar_lines_and_pixels() {
    let mut s = session();
    let frame_id = ensure_selected_frame_id(&mut s.ui);
    let i = s.ui.frames.index_of(frame_id);
    s.ui.frames.list[i].char_height = 20;
    builtin_modify_frame_parameters(
        &mut s.ui,
        &vec![
            Value::fixnum(frame_id as i64),
            list(vec![Value::cons(
                symbol("tab-bar-lines"),
                Value::fixnum(1),
            )]),
        ],
    )
    .unwrap();

    let lines =
        builtin_tab_bar_height_ctx(&mut s.ui, &vec![Value::fixnum(frame_id as i64)]).unwrap();
    assert_eq!(lines, Value::fixnum(1));

    let pixels = builtin_tab_bar_height_ctx(
        &mut s.ui,
        &vec![Value::fixnum(frame_id as i64), Value::True],
    )
    .unwrap();
    assert_eq!(pixels, Value::fixnum(20));

    assert_eq!(s.ui.frames.list[i].tab_bar_height, 20);
}

#[test]
fn test_line_number_display_width() {
    let result = builtin_line_number_display_width(&vec![]).unwrap();
    assert_eq!(result, Value::fixnum(0));

    let result = builtin_line_number_display_width(&vec![Value::True]).unwrap();
    assert_eq!(result, Value::fixnum(0));
}

#[test]
fn test_long_line_optimizations_p() {
    let result = builtin_long_line_optimizations_p(&vec![]).unwrap();
    assert!(result.is_nil());
}

#[test]
fn test_wrong_arity() {
    assert!(builtin_line_pixel_height(&vec![Value::fixnum(1)]).is_err());
    assert!(builtin_invisible_p(&vec![]).is_err());
    assert!(builtin_move_point_visually(&vec![]).is_err());
    assert!(builtin_lookup_image_map(&vec![Value::fixnum(1), Value::fixnum(2)]).is_err());
    let mut s = session();
    assert!(builtin_move_to_window_line(&mut s.ui, &vec![]).is_err());
}

#[test]
fn test_optional_args() {
    // format-mode-line allows 1-4 args
    assert!(builtin_format_mode_line(&vec![]).is_err());
    assert!(builtin_format_mode_line(&vec![plain("fmt")]).is_ok());
    assert!(builtin_format_mode_line(&vec![
        plain("fmt"),
        symbol("face"),
        Value::Nil,
        Value::Nil,
    ])
    .is_ok());
    assert!(builtin_format_mode_line(&vec![
        plain("fmt"),
        symbol("face"),
        symbol("window"),
        symbol("buffer"),
        symbol("extra"),
    ])
    .is_err());

    // window-text-pixel-size allows 0-7 args
    assert!(builtin_window_text_pixel_size(&vec![]).is_ok());
    assert!(builtin_window_text_pixel_size(&vec![
        Value::Nil,
        Value::fixnum(1),
        Value::fixnum(100),
        Value::fixnum(500),
        Value::fixnum(300),
        symbol("mode"),
        symbol("pixelwise"),
    ])
    .is_ok());
    let eight: Vec<Value> = (0..8).map(|_| Value::fixnum(1)).collect();
    assert!(builtin_window_text_pixel_size(&eight).is_err());
}
