//! Lisp programs on windows and frames, run by a small evaluator over the builtins.
use neovm_core::symbol::Obarray;
use neovm_core::value::{
    error_signal, list_to_vec, signal, wrong_number_of_arguments, wrong_type_argument, EvalResult,
    Flow, Value,
};
use neovm_core::window::{Leaf, Rect, Window};
use neovm_core::window_cmds::display::{
    builtin_display_buffer,
    builtin_pop_to_buffer,
    builtin_set_window_buffer,
    builtin_switch_to_buffer,
};
use neovm_core::window_cmds::edit::{
    builtin_delete_other_windows,
    builtin_delete_other_windows_internal,
    builtin_delete_window,
    builtin_delete_window_internal,
    builtin_other_window,
    builtin_select_window,
    builtin_set_frame_selected_window,
    split_window_internal_impl,
};
use neovm_core::window_cmds::frame_size::{
    builtin_frame_char_height,
    builtin_frame_char_width,
    builtin_frame_native_height,
    builtin_frame_native_width,
    builtin_frame_position,
    builtin_frame_text_cols,
    builtin_frame_text_height,
    builtin_frame_text_lines,
    builtin_frame_text_width,
    builtin_frame_total_cols,
    builtin_frame_total_lines,
    builtin_set_frame_height,
    builtin_set_frame_position,
    builtin_set_frame_size,
    builtin_set_frame_width,
};
use neovm_core::window_cmds::frames::{
    builtin_delete_frame,
    builtin_frame_list,
    builtin_frame_live_p,
    builtin_frame_parameter,
    builtin_frame_parameters,
    builtin_frame_visible_p,
    builtin_framep,
    builtin_iconify_frame,
    builtin_make_frame,
    builtin_make_frame_visible,
    builtin_modify_frame_parameters,
    builtin_select_frame,
    builtin_select_frame_set_input_focus,
    builtin_selected_frame,
    builtin_visible_frame_list,
};
use neovm_core::window_cmds::geometry::{
    builtin_window_body_height,
    builtin_window_body_width,
    builtin_window_edges,
    builtin_window_header_line_height,
    builtin_window_height,
    builtin_window_left_column,
    builtin_window_mode_line_height,
    builtin_window_pixel_height,
    builtin_window_pixel_left,
    builtin_window_pixel_top,
    builtin_window_pixel_width,
    builtin_window_text_height,
    builtin_window_text_width,
    builtin_window_top_line,
    builtin_window_total_height,
    builtin_window_total_width,
    builtin_window_width,
    window_normal_size,
};
use neovm_core::window_cmds::listing::{
    builtin_get_buffer_window,
    builtin_next_window,
    builtin_other_window_for_scrolling,
    builtin_previous_window,
    builtin_window_at,
    builtin_window_list,
    builtin_window_list_1,
};
use neovm_core::window_cmds::position::{
    builtin_set_window_group_start,
    builtin_set_window_point,
    builtin_set_window_start,
    builtin_window_end,
    builtin_window_group_start,
    builtin_window_old_point,
    builtin_window_point,
    builtin_window_start,
};
use neovm_core::window_cmds::query::{
    builtin_active_minibuffer_window,
    builtin_frame_first_window,
    builtin_frame_old_selected_window,
    builtin_frame_root_window,
    builtin_frame_selected_window,
    builtin_minibuffer_selected_window,
    builtin_minibuffer_window,
    builtin_old_selected_window,
    builtin_selected_window,
    builtin_window_buffer,
    builtin_window_frame,
    builtin_window_left_child,
    builtin_window_live_p,
    builtin_window_minibuffer_p,
    builtin_window_next_sibling,
    builtin_window_parent,
    builtin_window_prev_sibling,
    builtin_window_top_child,
    builtin_window_valid_p,
    builtin_windowp,
};
use neovm_core::window_cmds::records::{
    builtin_scroll_left,
    builtin_scroll_right,
    builtin_set_window_combination_limit,
    builtin_set_window_cursor_type,
    builtin_set_window_dedicated_p,
    builtin_set_window_display_table,
    builtin_set_window_fringes,
    builtin_set_window_hscroll,
    builtin_set_window_margins,
    builtin_set_window_next_buffers,
    builtin_set_window_parameter,
    builtin_set_window_prev_buffers,
    builtin_set_window_scroll_bars,
    builtin_set_window_vscroll,
    builtin_window_bump_use_time,
    builtin_window_combination_limit,
    builtin_window_cursor_type,
    builtin_window_dedicated_p,
    builtin_window_display_table,
    builtin_window_fringes,
    builtin_window_hscroll,
    builtin_window_margins,
    builtin_window_next_buffers,
    builtin_window_old_buffer,
    builtin_window_parameter,
    builtin_window_parameters,
    builtin_window_prev_buffers,
    builtin_window_scroll_bars,
    builtin_window_use_time,
    builtin_window_vscroll,
};
use neovm_core::window_cmds::scroll::{
    builtin_recenter,
    builtin_recenter_top_bottom,
};
use neovm_core::window_cmds::create::builtin_x_create_frame;
use neovm_core::window_cmds::scroll::{
    builtin_scroll_down, builtin_scroll_down_command, builtin_scroll_up, builtin_scroll_up_command,
};
use neovm_core::window_cmds::resize::{builtin_window_resize_apply, builtin_window_resize_apply_total};
use neovm_core::window_cmds::state::{ensure_selected_frame_id, Ui};

// -- Reading --

struct Reader {
    chars: Vec<char>,
    at: usize,
}

impl Reader {
    fn peek(&self) -> Option<char> {
        self.chars.get(self.at).copied()
    }

    fn skip_blanks(&mut self) {
        while self.peek().map_or(false, |c| c.is_whitespace()) {
            self.at += 1;
        }
    }

    fn form(&mut self) -> Value {
        self.skip_blanks();
        let c = self.peek().expect("form");
        match c {
            '(' => {
                self.at += 1;
                self.tail()
            }
            '\'' => {
                self.at += 1;
                let quoted = self.form();
                Value::list2(Value::symbol("quote"), quoted)
            }
            '#' => {
                self.at += 2;
                let quoted = self.form();
                Value::list2(Value::symbol("function"), quoted)
            }
            '"' => {
                self.at += 1;
                self.string()
            }
            '?' => {
                self.at += 2;
                Value::character(self.chars[self.at - 1])
            }
            _ => self.atom(),
        }
    }

    fn tail(&mut self) -> Value {
        self.skip_blanks();
        if self.peek() == Some(')') {
            self.at += 1;
            return Value::Nil;
        }
        let dotted = self.peek() == Some('.')
            && self.chars.get(self.at + 1).map_or(false, |c| c.is_whitespace());
        if dotted {
            self.at += 1;
            let last = self.form();
            self.skip_blanks();
            self.at += 1;
            return last;
        }
        let first = self.form();
        let rest = self.tail();
        Value::cons(first, rest)
    }

    fn string(&mut self) -> Value {
        let mut text = String::new();
        loop {
            let c = self.peek().expect("end of string");
            self.at += 1;
            match c {
                '"' => return Value::string(&text),
                '\\' => {
                    text.push(self.peek().expect("escaped character"));
                    self.at += 1;
                }
                _ => text.push(c),
            }
        }
    }

    fn atom(&mut self) -> Value {
        let mut text = String::new();
        while let Some(c) = self.peek() {
            if c.is_whitespace() || c == '(' || c == ')' || c == '"' {
                break;
            }
            text.push(c);
            self.at += 1;
        }
        if let Ok(n) = text.parse::<i64>() {
            return Value::Int(n);
        }
        let digits = text.chars().any(|c| c.is_ascii_digit()) && text.contains('.');
        match text.parse::<f64>() {
            Ok(x) if digits => Value::Float(x.to_bits()),
            _ => Value::symbol(&text),
        }
    }
}

fn parse_forms(src: &str) -> Vec<Value> {
    let mut reader = Reader {
        chars: src.chars().collect(),
        at: 0,
    };
    let mut forms = Vec::new();
    reader.skip_blanks();
    while reader.peek().is_some() {
        forms.push(reader.form());
        reader.skip_blanks();
    }
    forms
}

// -- Functions that Lisp adds to the builtins --

const PRELUDE: &str = "
(defun frame-root-window-p (window)
  (eq window (frame-root-window window)))
(defun minibuffer-window-active-p (window)
  (and (window-live-p window) (eq window (active-minibuffer-window))))
(defun one-window-p (&optional nomini all-frames)
  (eq (selected-window)
      (next-window (selected-window) (if nomini 'lambda nil) all-frames)))
(defun split-window (&optional window size side)
  (split-window-internal (or window (selected-window)) size side nil))
(defun window-pixel-edges (&optional window) (window-edges window nil nil t))
(defun window-body-edges (&optional window) (window-edges window t))
(defun window-body-pixel-edges (&optional window) (window-edges window t nil t))
(defun get-buffer-window-list (&optional buffer-or-name minibuf all-frames)
  (windows-showing (normalized-buffer buffer-or-name)
                   (window-list-1 (selected-window) minibuf all-frames)))
(defun windows-showing (buffer windows)
  (if windows
      (if (eq (window-buffer (car windows)) buffer)
          (cons (car windows) (windows-showing buffer (cdr windows)))
        (windows-showing buffer (cdr windows)))
    nil))
";

fn alias_of(name: &str) -> Option<&'static str> {
    match name {
        "window-inside-pixel-edges" => Some("window-body-pixel-edges"),
        "window-inside-edges" => Some("window-body-edges"),
        _ => None,
    }
}

// -- Evaluation --

type Builtin = fn(&mut Ui, &Vec<Value>) -> EvalResult;

fn builtin(name: &str) -> Option<Builtin> {
    match name {
        "set-window-buffer" => Some(builtin_set_window_buffer),
        "switch-to-buffer" => Some(builtin_switch_to_buffer),
        "display-buffer" => Some(builtin_display_buffer),
        "pop-to-buffer" => Some(builtin_pop_to_buffer),
        "delete-window" => Some(builtin_delete_window),
        "delete-other-windows" => Some(builtin_delete_other_windows),
        "delete-other-windows-internal" => Some(builtin_delete_other_windows_internal),
        "delete-window-internal" => Some(builtin_delete_window_internal),
        "select-window" => Some(builtin_select_window),
        "set-frame-selected-window" => Some(builtin_set_frame_selected_window),
        "other-window" => Some(builtin_other_window),
        "frame-char-height" => Some(builtin_frame_char_height),
        "frame-char-width" => Some(builtin_frame_char_width),
        "frame-native-height" => Some(builtin_frame_native_height),
        "frame-native-width" => Some(builtin_frame_native_width),
        "frame-text-cols" => Some(builtin_frame_text_cols),
        "frame-text-lines" => Some(builtin_frame_text_lines),
        "frame-text-width" => Some(builtin_frame_text_width),
        "frame-text-height" => Some(builtin_frame_text_height),
        "frame-total-cols" => Some(builtin_frame_total_cols),
        "frame-total-lines" => Some(builtin_frame_total_lines),
        "frame-position" => Some(builtin_frame_position),
        "set-frame-height" => Some(builtin_set_frame_height),
        "set-frame-width" => Some(builtin_set_frame_width),
        "set-frame-size" => Some(builtin_set_frame_size),
        "set-frame-position" => Some(builtin_set_frame_position),
        "iconify-frame" => Some(builtin_iconify_frame),
        "make-frame-visible" => Some(builtin_make_frame_visible),
        "selected-frame" => Some(builtin_selected_frame),
        "select-frame" => Some(builtin_select_frame),
        "select-frame-set-input-focus" => Some(builtin_select_frame_set_input_focus),
        "frame-list" => Some(builtin_frame_list),
        "visible-frame-list" => Some(builtin_visible_frame_list),
        "make-frame" => Some(builtin_make_frame),
        "delete-frame" => Some(builtin_delete_frame),
        "frame-parameter" => Some(builtin_frame_parameter),
        "frame-parameters" => Some(builtin_frame_parameters),
        "modify-frame-parameters" => Some(builtin_modify_frame_parameters),
        "window-height" => Some(builtin_window_height),
        "window-width" => Some(builtin_window_width),
        "window-total-height" => Some(builtin_window_total_height),
        "window-total-width" => Some(builtin_window_total_width),
        "window-left-column" => Some(builtin_window_left_column),
        "window-top-line" => Some(builtin_window_top_line),
        "window-pixel-left" => Some(builtin_window_pixel_left),
        "window-pixel-top" => Some(builtin_window_pixel_top),
        "window-mode-line-height" => Some(builtin_window_mode_line_height),
        "window-header-line-height" => Some(builtin_window_header_line_height),
        "window-pixel-height" => Some(builtin_window_pixel_height),
        "window-pixel-width" => Some(builtin_window_pixel_width),
        "window-body-height" => Some(builtin_window_body_height),
        "window-body-width" => Some(builtin_window_body_width),
        "window-text-height" => Some(builtin_window_text_height),
        "window-text-width" => Some(builtin_window_text_width),
        "window-list" => Some(builtin_window_list),
        "window-list-1" => Some(builtin_window_list_1),
        "get-buffer-window" => Some(builtin_get_buffer_window),
        "window-at" => Some(builtin_window_at),
        "next-window" => Some(builtin_next_window),
        "previous-window" => Some(builtin_previous_window),
        "other-window-for-scrolling" => Some(builtin_other_window_for_scrolling),
        "window-start" => Some(builtin_window_start),
        "window-group-start" => Some(builtin_window_group_start),
        "window-point" => Some(builtin_window_point),
        "window-old-point" => Some(builtin_window_old_point),
        "window-end" => Some(builtin_window_end),
        "set-window-start" => Some(builtin_set_window_start),
        "set-window-group-start" => Some(builtin_set_window_group_start),
        "set-window-point" => Some(builtin_set_window_point),
        "selected-window" => Some(builtin_selected_window),
        "old-selected-window" => Some(builtin_old_selected_window),
        "frame-selected-window" => Some(builtin_frame_selected_window),
        "frame-old-selected-window" => Some(builtin_frame_old_selected_window),
        "frame-first-window" => Some(builtin_frame_first_window),
        "frame-root-window" => Some(builtin_frame_root_window),
        "minibuffer-window" => Some(builtin_minibuffer_window),
        "window-minibuffer-p" => Some(builtin_window_minibuffer_p),
        "window-frame" => Some(builtin_window_frame),
        "window-buffer" => Some(builtin_window_buffer),
        "window-parent" => Some(builtin_window_parent),
        "window-top-child" => Some(builtin_window_top_child),
        "window-left-child" => Some(builtin_window_left_child),
        "window-next-sibling" => Some(builtin_window_next_sibling),
        "window-prev-sibling" => Some(builtin_window_prev_sibling),
        "window-display-table" => Some(builtin_window_display_table),
        "set-window-display-table" => Some(builtin_set_window_display_table),
        "window-cursor-type" => Some(builtin_window_cursor_type),
        "set-window-cursor-type" => Some(builtin_set_window_cursor_type),
        "window-prev-buffers" => Some(builtin_window_prev_buffers),
        "window-next-buffers" => Some(builtin_window_next_buffers),
        "set-window-prev-buffers" => Some(builtin_set_window_prev_buffers),
        "set-window-next-buffers" => Some(builtin_set_window_next_buffers),
        "window-use-time" => Some(builtin_window_use_time),
        "window-old-buffer" => Some(builtin_window_old_buffer),
        "window-bump-use-time" => Some(builtin_window_bump_use_time),
        "window-parameter" => Some(builtin_window_parameter),
        "set-window-parameter" => Some(builtin_set_window_parameter),
        "window-parameters" => Some(builtin_window_parameters),
        "window-dedicated-p" => Some(builtin_window_dedicated_p),
        "set-window-dedicated-p" => Some(builtin_set_window_dedicated_p),
        "window-hscroll" => Some(builtin_window_hscroll),
        "set-window-hscroll" => Some(builtin_set_window_hscroll),
        "scroll-left" => Some(builtin_scroll_left),
        "scroll-right" => Some(builtin_scroll_right),
        "window-vscroll" => Some(builtin_window_vscroll),
        "set-window-vscroll" => Some(builtin_set_window_vscroll),
        "set-window-margins" => Some(builtin_set_window_margins),
        "window-margins" => Some(builtin_window_margins),
        "window-fringes" => Some(builtin_window_fringes),
        "set-window-fringes" => Some(builtin_set_window_fringes),
        "window-scroll-bars" => Some(builtin_window_scroll_bars),
        "set-window-scroll-bars" => Some(builtin_set_window_scroll_bars),
        "window-combination-limit" => Some(builtin_window_combination_limit),
        "set-window-combination-limit" => Some(builtin_set_window_combination_limit),
        "recenter" => Some(builtin_recenter),
        "recenter-top-bottom" => Some(builtin_recenter_top_bottom),
        _ => None,
    }
}

struct Evaluator {
    ui: Ui,
    symbols: Obarray,
    variables: Vec<(String, Value)>,
    functions: Vec<(String, Value, Value)>,
}

fn truth(b: bool) -> Value {
    Value::bool_val(b)
}

fn text_of(v: &Value) -> String {
    v.as_runtime_string()
        .expect("string")
        .into_iter()
        .collect()
}

fn nth(v: &Value, n: i64) -> Value {
    let mut rest = v.copy();
    for _ in 0..n {
        rest = rest.cdr();
    }
    rest
}

impl Evaluator {
    fn new() -> Self {
        let mut ev = Evaluator {
            ui: Ui::new(),
            symbols: Obarray::new(),
            variables: Vec::new(),
            functions: Vec::new(),
        };
        for form in parse_forms(PRELUDE) {
            let name = form.cdr().car().as_symbol_name().expect("function name");
            let parameters = form.cdr().cdr().car();
            let body = form.cdr().cdr().cdr();
            ev.functions.push((name, parameters, body));
        }
        ev
    }

    fn set_variable(&mut self, name: &str, v: Value) {
        match self.variables.iter().rposition(|b| b.0 == name) {
            Some(i) => self.variables[i].1 = v,
            None => self.variables.insert(0, (name.to_string(), v)),
        }
    }

    fn results(&mut self, forms: &Vec<Value>) -> Vec<String> {
        let mut out = Vec::new();
        for form in forms {
            let line = match self.eval(form) {
                Ok(v) => format!("OK {}", self.print(&v)),
                Err(Flow::Signal(s)) => format!("ERR ({} {})", s.symbol, self.print(&s.data)),
            };
            out.push(line);
        }
        out
    }

    fn buffer_name(&self, id: u64) -> Option<String> {
        self.ui.buffers.get(id).map(|b| b.name.clone())
    }

    fn buffer_of(&self, v: &Value) -> Option<u64> {
        match v {
            Value::Nil => self.ui.buffers.current_buffer_id(),
            Value::Buffer(id) => self.ui.buffers.get(*id).map(|b| b.id),
            Value::Str(_, _) => self.ui.buffers.find_buffer_by_name(&text_of(v)),
            _ => None,
        }
    }

    fn print(&self, v: &Value) -> String {
        match v {
            Value::Nil => "nil".to_string(),
            Value::True => "t".to_string(),
            Value::Int(n) => format!("{}", n),
            Value::Float(bits) => format!("{:?}", f64::from_bits(*bits)),
            Value::Symbol(s) => s.clone(),
            Value::Str(_, _) => format!("\"{}\"", text_of(v)),
            Value::Marker(_, None) => "#<marker in no buffer>".to_string(),
            Value::Marker(b, Some(n)) => format!("#<marker at {} in {:?}>", n, b),
            Value::Window(id) => format!("#<window {}>", id),
            Value::Frame(id) => format!("#<frame {}>", id),
            Value::Buffer(id) => match self.buffer_name(*id) {
                Some(name) => format!("#<buffer {}>", name),
                None => "#<killed buffer>".to_string(),
            },
            Value::Cons(a, d) => {
                let mut out = format!("({}", self.print(a));
                let mut rest = d.copy();
                loop {
                    match rest {
                        Value::Cons(x, y) => {
                            out.push(' ');
                            out.push_str(&self.print(&x));
                            rest = *y;
                        }
                        Value::Nil => break,
                        other => {
                            out.push_str(" . ");
                            out.push_str(&self.print(&other));
                            break;
                        }
                    }
                }
                out.push(')');
                out
            }
            other => format!("{:?}", other),
        }
    }

    fn progn(&mut self, body: &Value) -> EvalResult {
        let mut last = Value::Nil;
        for form in list_to_vec(body).expect("body") {
            last = self.eval(&form)?;
        }
        Ok(last)
    }

    fn with_saved_buffer(&mut self, body: &Value) -> EvalResult {
        let saved = self.ui.buffers.current_buffer_id();
        let r = self.progn(body);
        if let Some(id) = saved {
            if self.ui.buffers.get(id).is_some() {
                self.ui.buffers.set_current(id);
            }
        }
        r
    }

    fn bound(&mut self, bindings: Vec<(String, Value)>, body: &Value) -> EvalResult {
        let count = bindings.len();
        self.variables.extend(bindings);
        let r = self.progn(body);
        self.variables.truncate(self.variables.len() - count);
        r
    }

    fn let_form(&mut self, specs: &Value, body: &Value, in_turn: bool) -> EvalResult {
        let mut bindings: Vec<(String, Value)> = Vec::new();
        for spec in list_to_vec(specs).expect("bindings") {
            let name = spec.car().as_symbol_name().expect("variable");
            let value = if in_turn {
                let earlier: Vec<(String, Value)> =
                    bindings.iter().map(|b| (b.0.clone(), b.1.copy())).collect();
                self.variables.extend(earlier);
                let r = self.eval(&spec.cdr().car());
                let start = self.variables.len() - bindings.len();
                bindings = self.variables.split_off(start);
                r?
            } else {
                self.eval(&spec.cdr().car())?
            };
            bindings.push((name, value));
        }
        self.bound(bindings, body)
    }

    fn eval(&mut self, form: &Value) -> EvalResult {
        match form {
            Value::Symbol(name) => {
                if name.starts_with(':') {
                    return Ok(form.copy());
                }
                match self.variables.iter().rposition(|b| &b.0 == name) {
                    Some(i) => Ok(self.variables[i].1.copy()),
                    None => Err(signal("void-variable", Value::list1(form.copy()))),
                }
            }
            Value::Cons(head, rest) => {
                let name = head.as_symbol_name().expect("function name");
                self.eval_call(&name, rest)
            }
            _ => Ok(form.copy()),
        }
    }

    fn eval_call(&mut self, name: &str, rest: &Value) -> EvalResult {
        match name {
            "quote" | "function" => Ok(rest.car()),
            "lambda" => Ok(Value::cons(Value::symbol("lambda"), rest.copy())),
            "progn" => self.progn(rest),
            "prog1" => {
                let first = self.eval(&rest.car())?;
                self.progn(&rest.cdr())?;
                Ok(first)
            }
            "let" => self.let_form(&rest.car(), &rest.cdr(), false),
            "let*" => self.let_form(&rest.car(), &rest.cdr(), true),
            "setq" => {
                let v = self.eval(&rest.cdr().car())?;
                let name = rest.car().as_symbol_name().expect("variable");
                self.set_variable(&name, v.copy());
                Ok(v)
            }
            "if" => {
                if self.eval(&rest.car())?.is_truthy() {
                    self.eval(&rest.cdr().car())
                } else {
                    self.progn(&rest.cdr().cdr())
                }
            }
            "and" => {
                let mut last = Value::True;
                for form in list_to_vec(rest).expect("forms") {
                    last = self.eval(&form)?;
                    if last.is_nil() {
                        break;
                    }
                }
                Ok(last)
            }
            "or" => {
                for form in list_to_vec(rest).expect("forms") {
                    let v = self.eval(&form)?;
                    if v.is_truthy() {
                        return Ok(v);
                    }
                }
                Ok(Value::Nil)
            }
            "condition-case" => match self.eval(&rest.cdr().car()) {
                Ok(v) => Ok(v),
                Err(Flow::Signal(s)) => {
                    let name = rest.car().as_symbol_name().expect("variable");
                    let error = Value::cons(Value::symbol(&s.symbol), s.data);
                    let handler = rest.cdr().cdr().car().cdr();
                    self.bound(vec![(name, error)], &handler)
                }
            },
            "save-current-buffer" => self.with_saved_buffer(rest),
            "with-current-buffer" => {
                let set = Value::list2(Value::symbol("set-buffer"), rest.car());
                self.with_saved_buffer(&Value::cons(set, rest.cdr()))
            }
            "set-marker" => {
                let n = self.eval(&rest.cdr().car())?.as_int().expect("position");
                let buffer = self.eval(&rest.cdr().cdr().car())?;
                let id = self.buffer_of(&buffer).expect("buffer");
                let b = self.ui.buffers.get(id).expect("buffer");
                let position = n.max(1).min(b.char_count() as i64 + 1);
                let marker = Value::Marker(Some(b.name.clone()), Some(position));
                let name = rest.car().as_symbol_name().expect("variable");
                self.set_variable(&name, marker.copy());
                Ok(marker)
            }
            _ => {
                let mut args = Vec::new();
                for form in list_to_vec(rest).expect("arguments") {
                    args.push(self.eval(&form)?);
                }
                self.call(name, args)
            }
        }
    }

    fn apply_function(&mut self, function: &Value, args: Vec<Value>) -> EvalResult {
        match function {
            Value::Symbol(name) => match self.call(name, args) {
                Err(Flow::Signal(s)) => {
                    let mut data = s.data;
                    if s.symbol == "wrong-number-of-arguments" && data.car() == *function {
                        let shown = Value::Symbol(format!("#<subr {}>", name));
                        data = Value::cons(shown, data.cdr());
                    }
                    Err(signal(&s.symbol, data))
                }
                r => r,
            },
            _ => self.apply_lambda("lambda", &function.cdr().car(), &function.cdr().cdr(), args),
        }
    }

    fn apply_lambda(
        &mut self,
        name: &str,
        parameters: &Value,
        body: &Value,
        args: Vec<Value>,
    ) -> EvalResult {
        let count = args.len();
        let mut given = args.into_iter();
        let mut optional = false;
        let mut bindings = Vec::new();
        for p in list_to_vec(parameters).expect("parameters") {
            if p.is_symbol_named("&optional") {
                optional = true;
                continue;
            }
            let value = match given.next() {
                Some(v) => v,
                None if optional => Value::Nil,
                None => return Err(wrong_number_of_arguments(name, count)),
            };
            bindings.push((p.as_symbol_name().expect("parameter"), value));
        }
        if given.next().is_some() {
            return Err(wrong_number_of_arguments(name, count));
        }
        self.bound(bindings, body)
    }

    fn call(&mut self, called: &str, args: Vec<Value>) -> EvalResult {
        let name = alias_of(called).unwrap_or(called);
        if let Some(f) = builtin(name) {
            return f(&mut self.ui, &args);
        }
        if let Some(i) = self.functions.iter().position(|f| f.0 == name) {
            let parameters = self.functions[i].1.copy();
            let body = self.functions[i].2.copy();
            return self.apply_lambda(name, &parameters, &body, args);
        }
        if let Some(r) = self.call_on_frames(name, &args) {
            return r;
        }
        if let Some(r) = self.call_on_buffers(name, &args) {
            return r;
        }
        self.call_on_data(name, args)
    }

    fn call_on_frames(&mut self, name: &str, args: &Vec<Value>) -> Option<EvalResult> {
        let r = match name {
            "windowp" => builtin_windowp(&self.ui.frames, args),
            "window-valid-p" => builtin_window_valid_p(&self.ui.frames, args),
            "window-live-p" => builtin_window_live_p(&self.ui.frames, args),
            "framep" => builtin_framep(&self.ui.frames, args),
            "frame-live-p" => builtin_frame_live_p(&self.ui.frames, args),
            "frame-visible-p" => builtin_frame_visible_p(&self.ui.frames, args),
            "minibuffer-selected-window" => builtin_minibuffer_selected_window(None, args),
            "active-minibuffer-window" => {
                builtin_active_minibuffer_window(&self.ui.frames, None, None, args)
            }
            "scroll-up" => builtin_scroll_up(&mut self.ui, &self.symbols, args),
            "scroll-down" => builtin_scroll_down(&mut self.ui, &self.symbols, args),
            "scroll-up-command" => builtin_scroll_up_command(&mut self.ui, &self.symbols, args),
            "scroll-down-command" => builtin_scroll_down_command(&mut self.ui, &self.symbols, args),
            "window-edges" => {
                let printed = args.first().map_or(String::new(), |a| self.print(a));
                builtin_window_edges(&mut self.ui, args, &printed)
            }
            "window-normal-size" => window_normal_size(&mut self.ui, args)
                .map(|q| Value::Float((q.part as f64 / q.whole as f64).to_bits())),
            "split-window-internal" => {
                if args.len() < 4 || args.len() > 5 {
                    Err(wrong_number_of_arguments(name, args.len()))
                } else {
                    split_window_internal_impl(&mut self.ui, &args[0], &args[2])
                }
            }
            _ => return None,
        };
        Some(r)
    }

    fn current_index(&mut self) -> usize {
        let id = self.ui.buffers.current_buffer_id().expect("current buffer");
        self.ui.buffers.index_of(id)
    }

    fn call_on_buffers(&mut self, name: &str, args: &Vec<Value>) -> Option<EvalResult> {
        let v = match name {
            "current-buffer" => Value::Buffer(self.ui.buffers.current_buffer_id().expect("buffer")),
            "set-buffer" => {
                let id = self.buffer_of(&args[0]).expect("buffer");
                self.ui.buffers.set_current(id);
                Value::Buffer(id)
            }
            "get-buffer" => match self.buffer_of(&args[0]) {
                Some(id) => Value::Buffer(id),
                None => Value::Nil,
            },
            "get-buffer-create" | "generate-new-buffer" => match self.buffer_of(&args[0]) {
                Some(id) => Value::Buffer(id),
                None => Value::Buffer(self.ui.buffers.create_buffer(&text_of(&args[0]))),
            },
            "kill-buffer" => {
                let id = self.buffer_of(&args[0]).expect("buffer");
                self.ui.buffers.list.retain(|b| b.id != id);
                if self.ui.buffers.current_buffer_id() == Some(id) {
                    let next = self.ui.buffers.list[0].id;
                    self.ui.buffers.set_current(next);
                }
                Value::True
            }
            "buffer-name" => match self.buffer_of(&args[0]).and_then(|id| self.buffer_name(id)) {
                Some(n) => Value::string(&n),
                None => Value::Nil,
            },
            "bufferp" => truth(args[0].is_buffer()),
            "buffer-live-p" => truth(self.buffer_of(&args[0]).is_some()),
            "normalized-buffer" => {
                let named = args[0].is_nil() || args[0].is_buffer() || args[0].is_string();
                match self.buffer_of(&args[0]) {
                    Some(id) => Value::Buffer(id),
                    None => {
                        let shown = match &args[0] {
                            Value::Str(_, _) => text_of(&args[0]),
                            other => self.print(other),
                        };
                        let kind = if named { "live buffer" } else { "buffer" };
                        return Some(Err(error_signal(&format!("No such {} {}", kind, shown))));
                    }
                }
            }
            "erase-buffer" => {
                let i = self.current_index();
                let end = self.ui.buffers.list[i].total_bytes();
                self.ui.buffers.list[i].delete_bytes(0, end);
                Value::Nil
            }
            "insert" => {
                let i = self.current_index();
                let text = args[0].as_lisp_string().expect("text");
                self.ui.buffers.list[i].insert_lisp_string(&text);
                Value::Nil
            }
            "goto-char" => {
                let i = self.current_index();
                let byte = self.ui.buffers.list[i].lisp_pos_to_byte(args[0].as_int().unwrap());
                self.ui.buffers.list[i].goto_byte(byte);
                args[0].copy()
            }
            "point-marker" => {
                let i = self.current_index();
                let b = &self.ui.buffers.list[i];
                Value::Marker(Some(b.name.clone()), Some(b.point_char() as i64 + 1))
            }
            _ => return None,
        };
        Some(Ok(v))
    }

    fn call_on_data(&mut self, name: &str, args: Vec<Value>) -> EvalResult {
        let v = match name {
            "list" => Value::list(args),
            "cons" => Value::cons(args[0].copy(), args[1].copy()),
            "car" => args[0].car(),
            "cdr" => args[0].cdr(),
            "nth" => nth(&args[1], args[0].as_int().unwrap()).car(),
            "nthcdr" => nth(&args[1], args[0].as_int().unwrap()),
            "length" => Value::Int(list_to_vec(&args[0]).expect("list").len() as i64),
            "eq" | "equal" => truth(args[0] == args[1]),
            "=" => truth(args[0].as_int() == args[1].as_int()),
            ">" => truth(args[0].as_int() > args[1].as_int()),
            "1-" => Value::Int(args[0].as_int().unwrap() - 1),
            "null" | "not" => truth(args[0].is_nil()),
            "integerp" => truth(args[0].as_int().is_some()),
            "listp" => truth(args[0].is_nil() || args[0].is_cons()),
            "consp" => truth(args[0].is_cons()),
            "markerp" => truth(matches!(args[0], Value::Marker(_, _))),
            "make-marker" => Value::Marker(None, None),
            "marker-position" => match &args[0] {
                Value::Marker(_, Some(n)) => Value::Int(*n),
                Value::Marker(_, None) => Value::Nil,
                other => return Err(wrong_type_argument("markerp", other)),
            },
            "make-string" => {
                let n = args[0].as_int().unwrap() as usize;
                let c = char::from_u32(args[1].as_int().unwrap() as u32).unwrap();
                Value::string(&c.to_string().repeat(n))
            }
            "memq" => {
                let mut rest = args[1].copy();
                while rest.is_cons() && rest.car() != args[0] {
                    rest = rest.cdr();
                }
                rest
            }
            "indirect-function" => args[0].copy(),
            "symbol-function" => {
                let named = args[0].as_symbol_name().expect("symbol");
                Value::symbol(alias_of(&named).unwrap_or(&named))
            }
            "mapcar" => {
                let mut out = Vec::new();
                for x in list_to_vec(&args[1]).expect("list") {
                    out.push(self.apply_function(&args[0], vec![x])?);
                }
                Value::list(out)
            }
            "funcall" => {
                let rest = args[1..].iter().map(|a| a.copy()).collect();
                return self.apply_function(&args[0], rest);
            }
            "apply" => {
                let mut rest: Vec<Value> =
                    args[1..args.len() - 1].iter().map(|a| a.copy()).collect();
                rest.extend(list_to_vec(&args[args.len() - 1]).expect("list"));
                return self.apply_function(&args[0], rest);
            }
            other => panic!("unknown function {}", other),
        };
        Ok(v)
    }
}

/// Evaluate all forms with a fresh evaluator that has a frame and a window set up.
fn eval_with_frame(src: &str) -> Vec<String> {
    let mut ev = Evaluator::new();
    let buf = ev.ui.buffers.create_buffer("*scratch*");
    ev.ui.frames.create_frame(Value::string("F1"), 800, 600, buf);
    ev.results(&parse_forms(src))
}

fn eval_one_with_frame(src: &str) -> String {
    eval_with_frame(src).into_iter().next().unwrap()
}

/// Evaluate all forms with a fresh evaluator that has the frame of startup.
fn startup_eval_with_frame(src: &str) -> Vec<String> {
    let mut ev = Evaluator::new();
    let buf = ev.ui.buffers.create_buffer("*scratch*");
    ev.ui.buffers.set_current(buf);
    ensure_selected_frame_id(&mut ev.ui);
    ev.results(&parse_forms(src))
}

fn startup_eval_one_with_frame(src: &str) -> String {
    startup_eval_with_frame(src)
        .into_iter()
        .next()
        .expect("result")
}

#[test]
fn active_minibuffer_window_tracks_live_minibuffer_state() {
    let mut ui = Ui::new();
    let buf = ui.buffers.create_buffer("*scratch*");
    ui.frames.create_frame(Value::string("F1"), 800, 600, buf);

    let fid = ensure_selected_frame_id(&mut ui);
    let frame = ui.frames.get(fid).expect("selected frame");
    let minibuffer_wid = frame.minibuffer_window.expect("minibuffer window");
    let minibuffer_buffer_id = frame
        .window_buffer(minibuffer_wid)
        .expect("minibuffer buffer");

    let minibuffer_window = builtin_minibuffer_window(&mut ui, &vec![]).unwrap();
    let active_minibuffer_window =
        builtin_active_minibuffer_window(&ui.frames, None, Some(minibuffer_buffer_id), &vec![])
            .unwrap();
    assert_eq!(active_minibuffer_window, minibuffer_window);
    assert!(!active_minibuffer_window.is_nil());
}

// -- Window queries --

#[test]
fn selected_window_returns_window_handle() {
    let r = eval_one_with_frame("(selected-window)");
    assert!(
        r.starts_with("OK #<window "),
        "expected window handle, got: {r}"
    );
}

#[test]
fn selected_window_bootstraps_initial_frame() {
    let mut ev = Evaluator::new();
    let forms = parse_forms("(window-live-p (selected-window))");
    let out = ev.results(&forms);
    assert_eq!(out[0], "OK t");
}

#[test]
fn frame_selected_window_arity_and_designators() {
    let mut ev = Evaluator::new();
    let forms = parse_forms("(windowp (frame-selected-window))
         (windowp (frame-selected-window nil))
         (windowp (frame-selected-window (selected-frame)))
         (condition-case err (frame-selected-window \"x\") (error err))
         (condition-case err (frame-selected-window 999999) (error err))
         (condition-case err (frame-selected-window nil nil) (error (car err)))")
    ;
    let out = ev.results(&forms);
    assert_eq!(out[0], "OK t");
    assert_eq!(out[1], "OK t");
    assert_eq!(out[2], "OK t");
    assert_eq!(out[3], "OK (wrong-type-argument frame-live-p \"x\")");
    assert_eq!(out[4], "OK (wrong-type-argument frame-live-p 999999)");
    assert_eq!(out[5], "OK wrong-number-of-arguments");
}

#[test]
fn minibuffer_window_frame_first_window_and_window_minibuffer_p_semantics() {
    let mut ev = Evaluator::new();
    let forms = parse_forms("(window-minibuffer-p)
         (windowp (minibuffer-window))
         (windowp (minibuffer-window (selected-frame)))
         (window-minibuffer-p (minibuffer-window))
         (eq (frame-first-window) (selected-window))
         (eq (frame-first-window (selected-window)) (selected-window))
         (eq (frame-first-window (minibuffer-window)) (selected-window))
         (eq (minibuffer-window) (car (nthcdr (1- (length (window-list nil t))) (window-list nil t))))
         (condition-case err (minibuffer-window 999999) (error err))
         (condition-case err (window-minibuffer-p 999999) (error err))
         (condition-case err (frame-first-window 999999) (error err))
         (condition-case err (minibuffer-window (selected-window)) (error (car err)))
         (condition-case err (window-minibuffer-p nil nil) (error (car err)))
         (condition-case err (frame-first-window nil nil) (error (car err)))")
    ;
    let out = ev.results(&forms);
    assert_eq!(out[0], "OK nil");
    assert_eq!(out[1], "OK t");
    assert_eq!(out[2], "OK t");
    assert_eq!(out[3], "OK t");
    assert_eq!(out[4], "OK t");
    assert_eq!(out[5], "OK t");
    assert_eq!(out[6], "OK t");
    assert_eq!(out[7], "OK t");
    assert_eq!(out[8], "OK (wrong-type-argument frame-live-p 999999)");
    assert_eq!(out[9], "OK (wrong-type-argument window-valid-p 999999)");
    assert_eq!(out[10], "OK (wrong-type-argument frame-live-p 999999)");
    assert_eq!(out[11], "OK wrong-type-argument");
    assert_eq!(out[12], "OK wrong-number-of-arguments");
    assert_eq!(out[13], "OK wrong-number-of-arguments");
}

#[test]
fn frame_root_window_window_valid_and_minibuffer_activity_semantics() {
    let out = startup_eval_with_frame(
        "(window-valid-p (selected-window))
         (window-valid-p (minibuffer-window))
         (window-valid-p nil)
         (window-valid-p 999999)
         (window-valid-p 'foo)
         (eq (frame-root-window) (selected-window))
         (eq (frame-root-window (selected-frame)) (selected-window))
         (eq (frame-root-window (selected-window)) (selected-window))
         (eq (frame-root-window (minibuffer-window)) (selected-window))
         (minibuffer-selected-window)
         (active-minibuffer-window)
         (minibuffer-window-active-p (minibuffer-window))
         (minibuffer-window-active-p (selected-window))
         (minibuffer-window-active-p nil)
         (minibuffer-window-active-p 999999)
         (minibuffer-window-active-p 'foo)
         (condition-case err (window-valid-p) (error err))
         (condition-case err (window-valid-p nil nil) (error err))
         (condition-case err (frame-root-window 999999) (error err))
         (condition-case err (frame-root-window 'foo) (error err))
         (condition-case err (frame-root-window nil nil) (error err))
         (condition-case err (minibuffer-selected-window nil) (error err))
         (condition-case err (active-minibuffer-window nil) (error err))
         (condition-case err (minibuffer-window-active-p) (error err))
         (condition-case err (minibuffer-window-active-p nil nil) (error err))",
    );
    assert_eq!(out[0], "OK t");
    assert_eq!(out[1], "OK t");
    assert_eq!(out[2], "OK nil");
    assert_eq!(out[3], "OK nil");
    assert_eq!(out[4], "OK nil");
    assert_eq!(out[5], "OK t");
    assert_eq!(out[6], "OK t");
    assert_eq!(out[7], "OK t");
    assert_eq!(out[8], "OK t");
    assert_eq!(out[9], "OK nil");
    assert_eq!(out[10], "OK nil");
    assert_eq!(out[11], "OK nil");
    assert_eq!(out[12], "OK nil");
    assert_eq!(out[13], "OK nil");
    assert_eq!(out[14], "OK nil");
    assert_eq!(out[15], "OK nil");
    assert_eq!(out[16], "OK (wrong-number-of-arguments window-valid-p 0)");
    assert_eq!(out[17], "OK (wrong-number-of-arguments window-valid-p 2)");
    assert_eq!(out[18], "OK (wrong-type-argument frame-live-p 999999)");
    assert_eq!(out[19], "OK (wrong-type-argument frame-live-p foo)");
    assert_eq!(
        out[20],
        "OK (wrong-number-of-arguments frame-root-window 2)"
    );
    assert_eq!(
        out[21],
        "OK (wrong-number-of-arguments minibuffer-selected-window 1)"
    );
    assert_eq!(
        out[22],
        "OK (wrong-number-of-arguments active-minibuffer-window 1)"
    );
    assert_eq!(
        out[23],
        "OK (wrong-number-of-arguments minibuffer-window-active-p 0)"
    );
    assert_eq!(
        out[24],
        "OK (wrong-number-of-arguments minibuffer-window-active-p 2)"
    );
}

#[test]
fn frame_root_window_p_semantics_and_errors() {
    let out = startup_eval_with_frame(
        "(frame-root-window-p (selected-window))
         (frame-root-window-p (minibuffer-window))
         (condition-case err (frame-root-window-p 999999) (error err))
         (condition-case err (frame-root-window-p 'foo) (error err))
         (condition-case err (frame-root-window-p) (error (car err)))
         (condition-case err (frame-root-window-p nil nil) (error (car err)))",
    );
    assert_eq!(out[0], "OK t");
    assert_eq!(out[1], "OK nil");
    assert_eq!(out[2], "OK (wrong-type-argument frame-live-p 999999)");
    assert_eq!(out[3], "OK (wrong-type-argument frame-live-p foo)");
    assert_eq!(out[4], "OK wrong-number-of-arguments");
    assert_eq!(out[5], "OK wrong-number-of-arguments");
}

#[test]
fn window_at_matches_batch_coordinate_and_error_semantics() {
    let mut ev = Evaluator::new();
    let forms = parse_forms("(windowp (window-at 0 0))
         (windowp (window-at 79 0))
         (null (window-at 80 0))
         (windowp (window-at 0 23))
         (let ((w (window-at 0 24))) (and w (window-minibuffer-p w)))
         (null (window-at 0 25))
         (null (window-at -1 0))
         (null (window-at 0 -1))
         (windowp (window-at 79.9 0))
         (null (window-at 80.0 0))
         (windowp (window-at 0 24.1))
         (condition-case err (window-at 'foo 0) (error err))
         (condition-case err (window-at 0 'foo) (error err))
         (condition-case err (window-at 0 0 999999) (error err))
         (condition-case err (window-at 0) (error (car err)))
         (condition-case err (window-at 0 0 nil nil) (error (car err)))")
    ;
    let out = ev.results(&forms);
    assert_eq!(out[0], "OK t");
    assert_eq!(out[1], "OK t");
    assert_eq!(out[2], "OK t");
    assert_eq!(out[3], "OK t");
    assert_eq!(out[4], "OK t");
    assert_eq!(out[5], "OK t");
    assert_eq!(out[6], "OK t");
    assert_eq!(out[7], "OK t");
    assert_eq!(out[8], "OK t");
    assert_eq!(out[9], "OK t");
    assert_eq!(out[10], "OK t");
    assert_eq!(out[11], "OK (wrong-type-argument numberp foo)");
    assert_eq!(out[12], "OK (wrong-type-argument numberp foo)");
    assert_eq!(out[13], "OK (wrong-type-argument frame-live-p 999999)");
    assert_eq!(out[14], "OK wrong-number-of-arguments");
    assert_eq!(out[15], "OK wrong-number-of-arguments");
}

#[test]
fn window_frame_arity_and_designators() {
    let mut ev = Evaluator::new();
    let forms = parse_forms("(framep (window-frame))
         (framep (window-frame nil))
         (framep (window-frame (selected-window)))
         (condition-case err (window-frame \"x\") (error err))
         (condition-case err (window-frame 999999) (error err))
         (condition-case err (window-frame nil nil) (error (car err)))")
    ;
    let out = ev.results(&forms);
    assert_eq!(out[0], "OK t");
    assert_eq!(out[1], "OK t");
    assert_eq!(out[2], "OK t");
    assert_eq!(out[3], "OK (wrong-type-argument window-valid-p \"x\")");
    assert_eq!(out[4], "OK (wrong-type-argument window-valid-p 999999)");
    assert_eq!(out[5], "OK wrong-number-of-arguments");
}

#[test]
fn window_designators_bootstrap_nil_and_validate_invalid_window_handles() {
    let mut ev = Evaluator::new();
    let forms = parse_forms("(window-start nil)
         (window-point nil)
         (window-buffer nil)
         (condition-case err (window-start 999999) (error err))
         (condition-case err (window-buffer 999999) (error err))
         (condition-case err (set-window-start nil 1) (error err))
         (condition-case err (set-window-point nil 1) (error err))")
    ;
    let out = ev.results(&forms);
    assert_eq!(out[0], "OK 1");
    assert_eq!(out[1], "OK 1");
    assert!(
        out[2].starts_with("OK #<buffer "),
        "unexpected value: {}",
        out[2]
    );
    assert_eq!(out[3], "OK (wrong-type-argument window-live-p 999999)");
    assert_eq!(out[4], "OK (wrong-type-argument windowp 999999)");
    assert_eq!(out[5], "OK 1");
    assert_eq!(out[6], "OK 1");
}

#[test]
fn windowp_true() {
    let r = eval_with_frame("(windowp (selected-window))");
    assert_eq!(r[0], "OK t");
}

#[test]
fn windowp_true_for_stale_deleted_window() {
    let r = eval_one_with_frame(
        "(let ((w (split-window-internal (selected-window) nil nil nil)))
           (delete-window w)
           (windowp w))",
    );
    assert_eq!(r, "OK t");
}

#[test]
fn windowp_false() {
    let r = eval_one_with_frame("(windowp 999999)");
    assert_eq!(r, "OK nil");
}

#[test]
fn window_live_p_true() {
    let r = eval_with_frame("(window-live-p (selected-window))");
    assert_eq!(r[0], "OK t");
}

#[test]
fn window_live_p_false_for_non_window() {
    let r = eval_one_with_frame("(window-live-p 999999)");
    assert_eq!(r, "OK nil");
}

#[test]
fn window_buffer_returns_buffer() {
    let r = eval_one_with_frame("(bufferp (window-buffer))");
    assert_eq!(r, "OK t");
}

#[test]
fn window_buffer_returns_nil_for_stale_deleted_window() {
    let r = eval_one_with_frame(
        "(let ((w (split-window-internal (selected-window) nil nil nil)))
           (delete-window w)
           (window-buffer w))",
    );
    assert_eq!(r, "OK nil");
}

#[test]
fn window_start_default() {
    let r = eval_one_with_frame("(window-start)");
    assert_eq!(r, "OK 0");
}

#[test]
fn set_window_start_and_read() {
    let results = eval_with_frame(
        "(let ((w (selected-window)))
            (with-current-buffer (window-buffer w)
              (erase-buffer)
              (insert (make-string 200 ?x)))
            (set-window-start w 42))
         (window-start)",
    );
    assert_eq!(results[0], "OK 42");
    assert_eq!(results[1], "OK 42");
}

#[test]
fn window_point_default() {
    let r = eval_one_with_frame("(window-point)");
    assert_eq!(r, "OK 0");
}

#[test]
fn set_window_point_and_read() {
    let results = eval_with_frame(
        "(let ((w (selected-window)))
            (with-current-buffer (window-buffer w)
              (erase-buffer)
              (insert (make-string 200 ?x)))
            (set-window-point w 10))
         (window-point)",
    );
    assert_eq!(results[0], "OK 10");
    assert_eq!(results[1], "OK 10");
}

#[test]
fn set_window_start_point_and_group_start_accept_marker_positions() {
    let mut ev = Evaluator::new();
    let forms = parse_forms("(let* ((w (selected-window))
                (m (with-current-buffer (window-buffer w)
                     (erase-buffer)
                     (insert \"abcdef\")
                     (goto-char 3)
                     (point-marker))))
           (list (markerp (set-window-start w m))
                 (window-start w)
                 (set-window-point w m)
                 (window-point w)
                 (markerp (set-window-group-start w m))
                 (window-start w)
                 (window-point w)))
         (let* ((w (selected-window))
                (_ (progn
                     (set-window-start w 7)
                     (set-window-point w 7)))
                (m (with-current-buffer (get-buffer-create \" *neovm-marker-other*\")
                     (erase-buffer)
                     (insert \"xyz\")
                     (goto-char 2)
                     (point-marker))))
           (list (markerp (set-window-start w m))
                 (window-start w)
                 (set-window-point w m)
                 (window-point w)
                 (markerp (set-window-group-start w m))
                 (window-start w)
                 (window-point w)))
         (let* ((w (selected-window))
                (_ (set-window-start w 1))
                (_ (set-window-point w 1)))
           (list (= (set-window-start w 0) 0)
                 (= (window-start w) 1)
                 (= (set-window-point w 0) 0)
                 (= (window-point w) 1)
                 (= (set-window-group-start w 0) 0)
                 (= (window-group-start w) 1)
                 (= (window-point w) 1)
                 (= (set-window-start w -10) -10)
                 (= (window-start w) 1)
                 (= (set-window-point w -10) -10)
                 (= (window-point w) 1)
                 (= (set-window-group-start w -10) -10)
                 (= (window-group-start w) 1)
                 (= (window-point w) 1)))
         (let* ((w (selected-window))
                (_ (set-window-start w 1))
                (_ (set-window-point w 1))
                (m0 (make-marker))
                (_ (set-marker m0 0 (window-buffer w)))
                (mneg (make-marker))
                (_ (set-marker mneg -5 (window-buffer w))))
           (list (markerp (set-window-start w m0))
                 (= (window-start w) 1)
                 (= (set-window-point w m0) 1)
                 (= (window-point w) 1)
                 (markerp (set-window-group-start w m0))
                 (= (window-group-start w) 1)
                 (= (window-point w) 1)
                 (markerp (set-window-start w mneg))
                 (= (window-start w) 1)
                 (= (set-window-point w mneg) 1)
                 (= (window-point w) 1)
                 (markerp (set-window-group-start w mneg))
                 (= (window-group-start w) 1)
                 (= (window-point w) 1)))
         (let* ((w (selected-window))
                (_ (with-current-buffer (window-buffer w)
                     (erase-buffer)
                     (insert \"abcdef\")
                     (goto-char 1)))
                (_ (set-window-start w 1))
                (_ (set-window-point w 1)))
           (list (= (set-window-start w 9999) 9999)
                 (= (window-start w) 7)
                 (= (set-window-point w 9999) 9999)
                 (= (window-point w) 7)
                 (= (set-window-group-start w 9999) 9999)
                 (= (window-group-start w) 7)
                 (= (window-point w) 7)))
         (let* ((w (selected-window))
                (_ (with-current-buffer (window-buffer w)
                     (erase-buffer)
                     (insert \"abcdef\")
                     (goto-char 1)))
                (m (make-marker))
                (_ (set-marker m 9999 (window-buffer w))))
           (list (markerp (set-window-start w m))
                 (= (window-start w) 7)
                 (= (set-window-point w m) 7)
                 (= (window-point w) 7)
                 (markerp (set-window-group-start w m))
                 (= (window-group-start w) 7)
                 (= (window-point w) 7)))
         (let ((m (make-marker)))
           (list (condition-case err (set-window-start (selected-window) m) (error err))
                 (condition-case err (set-window-point (selected-window) m) (error err))
                 (condition-case err (set-window-group-start (selected-window) m) (error err))))
         (list (condition-case err (set-window-start nil 1.5) (error err))
               (condition-case err (set-window-point nil 1.5) (error err))
               (condition-case err (set-window-group-start nil 1.5) (error err))
               (condition-case err (set-window-start nil 'foo) (error err))
               (condition-case err (set-window-point nil 'foo) (error err))
               (condition-case err (set-window-group-start nil 'foo) (error err)))")
    ;
    let out = ev.results(&forms);
    assert_eq!(out[0], "OK (t 3 3 3 t 3 3)");
    assert_eq!(out[1], "OK (t 2 2 2 t 2 2)");
    assert_eq!(out[2], "OK (t t t t t t t t t t t t t t)");
    assert_eq!(out[3], "OK (t t t t t t t t t t t t t t)");
    assert_eq!(out[4], "OK (t t t t t t t)");
    assert_eq!(out[5], "OK (t t t t t t t)");
    assert_eq!(
        out[6],
        "OK (#<marker in no buffer> (error \"Marker does not point anywhere\") #<marker in no buffer>)"
    );
    assert_eq!(
        out[7],
        "OK ((wrong-type-argument integer-or-marker-p 1.5) (wrong-type-argument integer-or-marker-p 1.5) (wrong-type-argument integer-or-marker-p 1.5) (wrong-type-argument integer-or-marker-p foo) (wrong-type-argument integer-or-marker-p foo) (wrong-type-argument integer-or-marker-p foo))"
    );
}

#[test]
fn window_height_positive() {
    let r = eval_one_with_frame("(window-height)");
    assert!(r.starts_with("OK "));
    let val: i64 = r.strip_prefix("OK ").unwrap().trim().parse().unwrap();
    assert!(val > 0, "window-height should be positive, got {val}");
}

#[test]
fn window_width_positive() {
    let r = eval_one_with_frame("(window-width)");
    assert!(r.starts_with("OK "));
    let val: i64 = r.strip_prefix("OK ").unwrap().trim().parse().unwrap();
    assert!(val > 0, "window-width should be positive, got {val}");
}

#[test]
fn window_body_height_pixelwise() {
    let r = eval_one_with_frame("(window-body-height nil t)");
    assert!(r.starts_with("OK "));
    let val: i64 = r.strip_prefix("OK ").unwrap().trim().parse().unwrap();
    // Batch mode returns character rows.
    assert_eq!(val, 36);
}

#[test]
fn window_body_width_pixelwise() {
    let r = eval_one_with_frame("(window-body-width nil t)");
    assert!(r.starts_with("OK "));
    let val: i64 = r.strip_prefix("OK ").unwrap().trim().parse().unwrap();
    // Batch mode returns character columns.
    assert_eq!(val, 100);
}

#[test]
fn window_total_size_queries_work() {
    let results = eval_with_frame(
        "(list (integerp (window-total-height))
               (integerp (window-total-width))
               (integerp (window-total-height nil t))
               (integerp (window-total-width nil t)))",
    );
    assert_eq!(results[0], "OK (t t t t)");
}

#[test]
fn get_buffer_window_finds_selected_window_for_current_buffer() {
    let result = eval_one_with_frame(
        "(let ((w (selected-window)))
           (eq w (get-buffer-window (window-buffer w))))",
    );
    assert_eq!(result, "OK t");
}

#[test]
fn get_buffer_window_list_returns_matching_windows() {
    let result = startup_eval_with_frame("(length (get-buffer-window-list (window-buffer)))");
    assert_eq!(result[0], "OK 1");
}

#[test]
fn get_buffer_window_and_list_match_optional_and_missing_buffer_semantics() {
    let results = startup_eval_with_frame(
        "(let ((vm-gbwl-live (generate-new-buffer \"gbwl-live\"))
               (vm-gbwl-dead (generate-new-buffer \"gbwl-dead\")))
           (list
            (condition-case err (get-buffer-window) (error err))
            (condition-case err (get-buffer-window nil) (error err))
            (condition-case err (get-buffer-window \"missing\") (error err))
            (windowp (get-buffer-window \"*scratch*\"))
            (length (get-buffer-window-list))
            (length (get-buffer-window-list nil))
            (length (get-buffer-window-list \"*scratch*\"))
            (condition-case err (get-buffer-window-list \"missing\") (error err))
            (condition-case err (get-buffer-window-list 1) (error err))
            (prog1 (condition-case err (get-buffer-window-list vm-gbwl-live) (error err))
              (kill-buffer vm-gbwl-live))
            (progn
              (kill-buffer vm-gbwl-dead)
              (condition-case err (get-buffer-window-list vm-gbwl-dead) (error err)))))",
    );
    assert_eq!(
        results[0],
        "OK (nil nil nil t 1 1 1 (error \"No such live buffer missing\") (error \"No such buffer 1\") nil (error \"No such live buffer #<killed buffer>\"))"
    );
}

#[test]
fn frames_are_listed_and_walked_in_the_order_they_were_made() {
    let mut ui = Ui::new();
    let id = ui.buffers.create_buffer("*scratch*");
    ui.buffers.set_current(id);
    let first = ensure_selected_frame_id(&mut ui);
    let made = |ui: &mut Ui| match builtin_make_frame(ui, &vec![]) {
        Ok(Value::Frame(f)) => f,
        other => panic!("expected a frame, got {:?}", other),
    };
    let second = made(&mut ui);
    let third = made(&mut ui);
    builtin_delete_frame(&mut ui, &vec![Value::Frame(second)]).unwrap();
    let fourth = made(&mut ui);
    assert!(first < second && second < third && third < fourth);
    let frames = builtin_visible_frame_list(&mut ui, &vec![]).unwrap();
    assert_eq!(
        list_to_vec(&frames),
        Some(vec![
            Value::Frame(first),
            Value::Frame(third),
            Value::Frame(fourth)
        ])
    );
    let window_of = |ui: &Ui, f: u64| Value::Window(ui.frames.get(f).unwrap().selected_window);
    let from = window_of(&ui, third);
    let walked =
        builtin_window_list_1(&mut ui, &vec![from, Value::Nil, Value::True]).unwrap();
    assert_eq!(
        list_to_vec(&walked),
        Some(vec![
            window_of(&ui, third),
            window_of(&ui, fourth),
            window_of(&ui, first)
        ])
    );
}

#[test]
fn window_list_1_callable_paths_return_live_windows() {
    let r = eval_one_with_frame(
        "(let* ((fn (indirect-function 'window-list-1))
                (a (funcall #'window-list-1 nil nil))
                (b (apply #'window-list-1 '(nil nil)))
                (c (funcall fn nil nil)))
           (list (listp a)
                 (consp a)
                 (equal a b)
                 (equal a c)
                 (null (memq nil (mapcar #'windowp a)))))",
    );
    assert_eq!(r, "OK (t t t t t)");
}

#[test]
fn window_list_1_stale_window_signals_wrong_type_argument() {
    let r = eval_one_with_frame(
        "(let ((w (split-window-internal (selected-window) nil nil nil)))
           (delete-window w)
           (list (condition-case err (window-list-1 w nil) (error (car err)))
                 (condition-case err (funcall #'window-list-1 w nil) (error (car err)))
                 (condition-case err (apply #'window-list-1 (list w nil)) (error (car err)))))",
    );
    assert_eq!(
        r,
        "OK (wrong-type-argument wrong-type-argument wrong-type-argument)"
    );
}

#[test]
fn window_list_1_all_frames_includes_other_frame_windows() {
    let r = eval_one_with_frame(
        "(let ((f1 (selected-frame))
              (f2 (make-frame)))
           (let ((w1 (progn (select-frame f1) (selected-window)))
                 (w2 (progn (select-frame f2) (selected-window))))
             (prog1
                 (list (null (memq w2 (window-list-1 w1 nil nil)))
                       (not (null (memq w2 (window-list-1 w1 nil t))))
                       (not (null (memq w2 (window-list-1 w1 nil 'visible))))
                       (not (null (memq w2 (window-list-1 w1 nil 0))))
                       (not (null (memq w2 (window-list-1 w1 nil f2))))
                       (null (memq w2 (window-list-1 w1 nil :bad))))
               (select-frame f1)
               (delete-frame f2))))",
    );
    assert_eq!(r, "OK (t t t t t t)");
}

#[test]
fn window_list_returns_list() {
    let r = eval_one_with_frame("(listp (window-list))");
    assert_eq!(r, "OK t");
}

#[test]
fn window_list_has_one_entry() {
    let r = eval_one_with_frame("(length (window-list))");
    assert_eq!(r, "OK 1");
}

#[test]
fn window_list_matches_frame_minibuffer_and_all_frames_batch_semantics() {
    let mut ev = Evaluator::new();
    let forms = parse_forms("(condition-case err (length (window-list)) (error err))
         (condition-case err (length (window-list (selected-frame))) (error err))
         (condition-case err (window-list 999999) (error err))
         (condition-case err (window-list 'foo) (error err))
         (condition-case err (window-list (selected-window)) (error err))
         (condition-case err (window-list 999999 nil t) (error err))
         (condition-case err (window-list nil nil t) (error err))
         (condition-case err (window-list nil nil 0) (error err))
         (length (window-list nil t))
         (length (window-list (selected-frame) t))
         (length (window-list nil nil (selected-window)))
         (length (window-list nil t (selected-window)))")
    ;
    let out = ev.results(&forms);
    assert_eq!(out[0], "OK 1");
    assert_eq!(out[1], "OK 1");
    assert_eq!(out[2], "OK (error \"Window is on a different frame\")");
    assert_eq!(out[3], "OK (error \"Window is on a different frame\")");
    assert_eq!(out[4], "OK (error \"Window is on a different frame\")");
    assert_eq!(out[5], "OK (wrong-type-argument windowp t)");
    assert_eq!(out[6], "OK (wrong-type-argument windowp t)");
    assert_eq!(out[7], "OK (wrong-type-argument windowp 0)");
    assert_eq!(out[8], "OK 2");
    assert_eq!(out[9], "OK 2");
    assert_eq!(out[10], "OK 1");
    assert_eq!(out[11], "OK 2");
}

#[test]
fn minibuffer_window_from_window_list_supports_basic_accessors() {
    let mut ev = Evaluator::new();
    let forms = parse_forms("(let ((m (car (nthcdr (1- (length (window-list nil t))) (window-list nil t)))))
           (list (window-live-p m)
                 (windowp m)
                 (buffer-name (window-buffer m))
                 (window-start m)
                 (window-point m)
                 (window-body-height m)
                 (window-body-height m t)))
         (let ((m (car (nthcdr (1- (length (window-list nil t))) (window-list nil t)))))
           (set-window-start m 7)
           (window-start m))
         (let ((m (car (nthcdr (1- (length (window-list nil t))) (window-list nil t)))))
           (set-window-point m 8)
           (window-point m))")
    ;
    let out = ev.results(&forms);
    assert_eq!(out[0], "OK (t t \" *Minibuf-0*\" 1 1 1 1)");
    assert_eq!(out[1], "OK 1");
    assert_eq!(out[2], "OK 1");
}

#[test]
fn window_dedicated_p_default() {
    let r = eval_one_with_frame("(window-dedicated-p)");
    assert_eq!(r, "OK nil");
}

#[test]
fn window_accessors_enforce_max_arity() {
    let mut ev = Evaluator::new();
    let forms = parse_forms("(condition-case err (window-buffer nil nil) (error (car err)))
         (condition-case err (window-start nil nil) (error (car err)))
         (condition-case err (window-end nil nil nil) (error (car err)))
         (condition-case err (window-point nil nil) (error (car err)))
         (condition-case err (window-dedicated-p nil nil) (error (car err)))
         (condition-case err (set-window-start nil 1 nil nil) (error (car err)))")
    ;
    let out = ev.results(&forms);
    assert_eq!(out[0], "OK wrong-number-of-arguments");
    assert_eq!(out[1], "OK wrong-number-of-arguments");
    assert_eq!(out[2], "OK wrong-number-of-arguments");
    assert_eq!(out[3], "OK wrong-number-of-arguments");
    assert_eq!(out[4], "OK wrong-number-of-arguments");
    assert_eq!(out[5], "OK wrong-number-of-arguments");
}

#[test]
fn set_window_dedicated_p() {
    let results = eval_with_frame(
        "(set-window-dedicated-p (selected-window) t)
         (window-dedicated-p)",
    );
    assert_eq!(results[0], "OK t");
    assert_eq!(results[1], "OK t");
}

#[test]
fn set_window_dedicated_p_bootstraps_nil_and_validates_designators() {
    let mut ev = Evaluator::new();
    let forms = parse_forms("(condition-case err (set-window-dedicated-p nil t) (error err))
         (window-dedicated-p nil)
         (condition-case err (set-window-dedicated-p 'foo t) (error err))
         (condition-case err (set-window-dedicated-p 999999 t) (error err))
         (condition-case err (set-window-dedicated-p nil nil) (error err))
         (window-dedicated-p nil)")
    ;
    let out = ev.results(&forms);
    assert_eq!(out[0], "OK t");
    assert_eq!(out[1], "OK t");
    assert_eq!(out[2], "OK (wrong-type-argument window-live-p foo)");
    assert_eq!(out[3], "OK (wrong-type-argument window-live-p 999999)");
    assert_eq!(out[4], "OK nil");
    assert_eq!(out[5], "OK nil");
}

// -- Window manipulation --

#[test]
fn split_window_internal_creates_new() {
    let results = eval_with_frame(
        "(split-window-internal (selected-window) nil nil nil)
         (length (window-list))",
    );
    assert!(results[0].starts_with("OK "));
    assert_eq!(results[1], "OK 2");
}

#[test]
fn split_window_internal_enforces_arity() {
    let mut ev = Evaluator::new();
    let forms = parse_forms("(condition-case err
             (split-window-internal (selected-window) nil nil nil nil nil)
           (error (car err)))
         (let ((w (split-window-internal (selected-window) nil nil nil)))
           (window-live-p w))")
    ;
    let out = ev.results(&forms);
    assert_eq!(out[0], "OK wrong-number-of-arguments");
    assert_eq!(out[1], "OK t");
}

#[test]
fn split_delete_window_invalid_designators_signal_error() {
    let results = eval_with_frame(
        "(condition-case err
             (split-window-internal 999999 nil nil nil)
           (error (car err)))
         (condition-case err
             (split-window-internal 'foo nil nil nil)
           (error (car err)))
         (condition-case err (delete-window 999999) (error (car err)))
         (condition-case err (delete-window 'foo) (error (car err)))
         (condition-case err (delete-other-windows 999999) (error (car err)))
         (condition-case err (delete-other-windows 'foo) (error (car err)))",
    );
    assert_eq!(results[0], "OK error");
    assert_eq!(results[1], "OK error");
    assert_eq!(results[2], "OK error");
    assert_eq!(results[3], "OK error");
    assert_eq!(results[4], "OK error");
    assert_eq!(results[5], "OK error");
}

#[test]
fn delete_window_after_split() {
    let results = startup_eval_with_frame(
        "(let ((new-win (split-window-internal (selected-window) nil nil nil)))
           (delete-window new-win)
           (length (window-list)))",
    );
    assert_eq!(results[0], "OK 1");
}

#[test]
fn delete_window_updates_current_buffer_to_selected_window_buffer() {
    let result = startup_eval_one_with_frame(
        "(save-current-buffer
           (let* ((b1 (get-buffer-create \"dw-curbuf-a\"))
                  (b2 (get-buffer-create \"dw-curbuf-b\")))
             (set-window-buffer nil b1)
             (let ((w2 (split-window-internal (selected-window) nil nil nil)))
               (set-window-buffer w2 b2)
               (select-window w2)
               (delete-window w2)
               (buffer-name (current-buffer)))))",
    );
    assert_eq!(result, "OK \"dw-curbuf-a\"");
}

#[test]
fn delete_sole_window_errors() {
    let r = startup_eval_one_with_frame("(delete-window)");
    assert!(r.contains("ERR"), "deleting sole window should error: {r}");
}

#[test]
fn delete_window_and_delete_other_windows_enforce_max_arity() {
    let out = startup_eval_with_frame(
        "(condition-case err (delete-window nil nil) (error (car err)))
         (condition-case err (delete-other-windows nil nil nil) (error (car err)))
         (condition-case err
             (let ((w2 (split-window-internal (selected-window) nil nil nil)))
               (delete-other-windows w2 nil))
           (error err))",
    );
    assert_eq!(out[0], "OK wrong-number-of-arguments");
    assert_eq!(out[1], "OK wrong-number-of-arguments");
    assert_eq!(out[2], "OK nil");
}

#[test]
fn delete_other_windows_keeps_one() {
    let results = startup_eval_with_frame(
        "(split-window-internal (selected-window) nil nil nil)
         (split-window-internal (selected-window) nil nil nil)
         (delete-other-windows)
         (length (window-list))",
    );
    assert_eq!(results[3], "OK 1");
}

#[test]
fn delete_other_windows_updates_current_buffer_when_kept_window_differs() {
    let result = startup_eval_one_with_frame(
        "(save-current-buffer
           (let* ((b1 (get-buffer-create \"dow-curbuf-a\"))
                  (b2 (get-buffer-create \"dow-curbuf-b\")))
             (set-window-buffer nil b1)
             (let ((w2 (split-window-internal (selected-window) nil nil nil))
                   (w1 (selected-window)))
               (set-window-buffer w2 b2)
               (select-window w2)
               (delete-other-windows w1)
               (buffer-name (current-buffer)))))",
    );
    assert_eq!(result, "OK \"dow-curbuf-a\"");
}

#[test]
fn select_window_works() {
    let results = eval_with_frame(
        "(let ((new-win (split-window-internal (selected-window) nil nil nil)))
           (select-window new-win)
           (eq (selected-window) new-win))",
    );
    assert_eq!(results[0], "OK t");
}

#[test]
fn select_window_validates_designators_and_arity() {
    let mut ev = Evaluator::new();
    let forms = parse_forms("(condition-case err (select-window nil) (error err))
         (condition-case err (select-window 'foo) (error err))
         (condition-case err (select-window 999999) (error err))
         (windowp (select-window (selected-window)))
         (condition-case err (select-window (selected-window) nil nil) (error (car err)))")
    ;
    let out = ev.results(&forms);
    assert_eq!(out[0], "OK (wrong-type-argument window-live-p nil)");
    assert_eq!(out[1], "OK (wrong-type-argument window-live-p foo)");
    assert_eq!(out[2], "OK (wrong-type-argument window-live-p 999999)");
    assert_eq!(out[3], "OK t");
    assert_eq!(out[4], "OK wrong-number-of-arguments");
}

#[test]
fn select_window_updates_current_buffer_to_selected_window_buffer() {
    let result = eval_one_with_frame(
        "(save-current-buffer
           (let* ((b1 (get-buffer-create \"sw-curbuf-a\"))
                  (b2 (get-buffer-create \"sw-curbuf-b\")))
             (set-window-buffer nil b1)
             (let ((w2 (split-window-internal (selected-window) nil nil nil)))
               (set-window-buffer w2 b2)
               (select-window w2)
               (buffer-name (current-buffer)))))",
    );
    assert_eq!(result, "OK \"sw-curbuf-b\"");
}

#[test]
fn other_window_cycles() {
    let results = startup_eval_with_frame(
        "(let ((w1 (selected-window)))
           (split-window-internal (selected-window) nil nil nil)
           (other-window 1)
           (not (eq (selected-window) w1)))",
    );
    assert_eq!(results[0], "OK t");
}

#[test]
fn other_window_updates_current_buffer_to_selected_window_buffer() {
    let result = startup_eval_one_with_frame(
        "(save-current-buffer
           (let* ((b1 (get-buffer-create \"ow-curbuf-a\"))
                  (b2 (get-buffer-create \"ow-curbuf-b\")))
             (set-window-buffer nil b1)
             (let ((w2 (split-window-internal (selected-window) nil nil nil)))
               (set-window-buffer w2 b2)
               (other-window 1)
               (buffer-name (current-buffer)))))",
    );
    assert_eq!(result, "OK \"ow-curbuf-b\"");
}

#[test]
fn other_window_requires_count_and_enforces_number_or_marker_p() {
    let out = startup_eval_with_frame(
        "(condition-case err (other-window) (error (car err)))
         (condition-case err (other-window nil) (error err))
         (condition-case err (other-window \"x\") (error err))",
    );
    assert_eq!(out[0], "OK wrong-number-of-arguments");
    assert_eq!(out[1], "OK (wrong-type-argument number-or-marker-p nil)");
    assert_eq!(out[2], "OK (wrong-type-argument number-or-marker-p \"x\")");
}

#[test]
fn other_window_accepts_float_counts_with_floor_semantics() {
    let results = startup_eval_with_frame(
        "(let* ((w1 (progn (delete-other-windows) (selected-window)))
                (w2 (split-window-internal (selected-window) nil nil nil)))
           (list
             (progn (other-window 1.5) (eq (selected-window) w2))
             (progn (select-window w1) (other-window 0.4) (eq (selected-window) w1))
             (progn (select-window w1) (other-window -0.4) (eq (selected-window) w2))
             (progn (select-window w1) (other-window -1.2) (eq (selected-window) w1))))",
    );
    assert_eq!(results[0], "OK (t t t t)");
}

#[test]
fn other_window_by_a_count_and_back_selects_the_first_window_again() {
    let results = startup_eval_with_frame(
        "(setq owb-w1 (progn (delete-other-windows) (selected-window)))
         (setq owb-w2 (split-window-internal owb-w1 nil nil nil))
         (setq owb-w3 (split-window-internal owb-w2 nil nil nil))
         (list
           (progn (other-window 2) (eq (selected-window) owb-w3))
           (progn (other-window -2) (eq (selected-window) owb-w1)))
         (list
           (progn (other-window 7) (eq (selected-window) owb-w2))
           (progn (other-window -7) (eq (selected-window) owb-w1)))
         (list
           (progn (other-window -1) (eq (selected-window) owb-w3))
           (progn (other-window 1) (eq (selected-window) owb-w1)))
         (list
           (progn (other-window 0) (eq (selected-window) owb-w1))
           (progn (other-window 9223372036854775807) (eq (selected-window) owb-w2))
           (progn (other-window -9223372036854775807) (eq (selected-window) owb-w1)))
         (list
           (other-window 1.9)
           (eq (selected-window) owb-w2)
           (other-window -1.9)
           (eq (selected-window) owb-w3))",
    );
    assert_eq!(results[3], "OK (t t)");
    assert_eq!(results[4], "OK (t t)");
    assert_eq!(results[5], "OK (t t)");
    assert_eq!(results[6], "OK (t t t)");
    assert_eq!(results[7], "OK (nil t nil t)");
}

#[test]
fn other_window_enforces_max_arity() {
    let out = startup_eval_with_frame(
        "(condition-case err (other-window 1 nil nil nil) (error (car err)))
         (condition-case err
             (let ((w1 (selected-window)))
               (split-window-internal (selected-window) nil nil nil)
               (other-window 1 nil nil)
               (not (eq (selected-window) w1)))
           (error err))",
    );
    assert_eq!(out[0], "OK wrong-number-of-arguments");
    assert_eq!(out[1], "OK t");
}

#[test]
fn other_window_without_selected_frame_returns_nil() {
    let mut ev = Evaluator::new();
    let forms = parse_forms("(other-window 1)");
    let results = ev.results(&forms);
    assert_eq!(results[0], "OK nil");
}

#[test]
fn selected_frame_bootstraps_initial_frame() {
    let mut ev = Evaluator::new();
    let forms =
        parse_forms("(list (framep (selected-frame)) (length (frame-list)))");
    let results = ev.results(&forms);
    assert_eq!(results[0], "OK (t 1)");
}

#[test]
fn window_size_queries_bootstrap_initial_frame() {
    let mut ev = Evaluator::new();
    let forms = parse_forms("(list (integerp (window-height))
               (integerp (window-width))
               (integerp (window-body-height))
               (integerp (window-body-width)))")
    ;
    let results = ev.results(&forms);
    assert_eq!(results[0], "OK (t t t t)");
}

#[test]
fn window_size_queries_match_batch_defaults_and_invalid_window_predicates() {
    let mut ev = Evaluator::new();
    let forms = parse_forms("(window-height nil)
         (window-width nil)
         (window-body-height nil)
         (window-body-width nil)
         (window-total-height nil)
         (window-total-width nil)
         (condition-case err (window-height 999999) (error err))
         (condition-case err (window-width 999999) (error err))
         (condition-case err (window-body-height 999999) (error err))
         (condition-case err (window-body-width 999999) (error err))
         (condition-case err (window-total-height 999999) (error err))
         (condition-case err (window-total-width 999999) (error err))")
    ;
    let out = ev.results(&forms);
    assert_eq!(out[0], "OK 24");
    assert_eq!(out[1], "OK 80");
    assert_eq!(out[2], "OK 23");
    assert_eq!(out[3], "OK 80");
    assert_eq!(out[4], "OK 24");
    assert_eq!(out[5], "OK 80");
    assert_eq!(out[6], "OK (wrong-type-argument window-valid-p 999999)");
    assert_eq!(out[7], "OK (wrong-type-argument window-live-p 999999)");
    assert_eq!(out[8], "OK (wrong-type-argument window-live-p 999999)");
    assert_eq!(out[9], "OK (wrong-type-argument window-live-p 999999)");
    assert_eq!(out[10], "OK (wrong-type-argument window-valid-p 999999)");
    assert_eq!(out[11], "OK (wrong-type-argument window-valid-p 999999)");
}

#[test]
fn window_geometry_helper_queries_match_batch_defaults_and_error_predicates() {
    let mut ev = Evaluator::new();
    let forms = parse_forms("(let* ((w (selected-window))
                (m (minibuffer-window)))
           (list (window-left-column w)
                 (window-left-column m)
                 (window-top-line w)
                 (window-top-line m)
                 (window-hscroll w)
                 (window-hscroll m)
                 (window-margins w)
                 (window-margins m)
                 (window-fringes w)
                 (window-fringes m)
                 (window-scroll-bars w)
                 (window-scroll-bars m)))
         (list (condition-case err (window-left-column 999999) (error err))
               (condition-case err (window-top-line 999999) (error err))
               (condition-case err (window-hscroll 999999) (error err))
               (condition-case err (window-margins 999999) (error err))
               (condition-case err (window-fringes 999999) (error err))
               (condition-case err (window-scroll-bars 999999) (error err))
               (condition-case err (window-left-column nil nil) (error err))
               (condition-case err (window-top-line nil nil) (error err))
               (condition-case err (window-hscroll nil nil) (error err))
               (condition-case err (window-margins nil nil) (error err))
               (condition-case err (window-fringes nil nil) (error err))
               (condition-case err (window-scroll-bars nil nil) (error err)))")
    ;
    let out = ev.results(&forms);
    assert_eq!(
        out[0],
        "OK (0 0 0 24 0 0 (nil) (nil) (0 0 nil nil) (0 0 nil nil) (nil 0 t nil 0 t nil) (nil 0 t nil 0 t nil))"
    );
    assert_eq!(
        out[1],
        "OK ((wrong-type-argument window-valid-p 999999) (wrong-type-argument window-valid-p 999999) (wrong-type-argument window-live-p 999999) (wrong-type-argument window-live-p 999999) (wrong-type-argument window-live-p 999999) (wrong-type-argument window-live-p 999999) (wrong-number-of-arguments window-left-column 2) (wrong-number-of-arguments window-top-line 2) (wrong-number-of-arguments window-hscroll 2) (wrong-number-of-arguments window-margins 2) (wrong-number-of-arguments window-fringes 2) (wrong-number-of-arguments window-scroll-bars 2))"
    );
}

#[test]
fn window_use_time_and_old_state_queries_match_batch_defaults_and_error_predicates() {
    let mut ev = Evaluator::new();
    let forms = parse_forms("(let* ((w (selected-window))
                (m (minibuffer-window)))
           (list (window-use-time w)
                 (window-use-time m)
                 (window-old-point w)
                 (window-old-point m)
                 (window-old-buffer w)
                 (window-old-buffer m)
                 (window-prev-buffers w)
                 (window-prev-buffers m)
                 (window-next-buffers w)
                 (window-next-buffers m)))
         (let* ((w1 (selected-window))
                (w2 (split-window-internal (selected-window) nil nil nil))
                (m (minibuffer-window)))
           (list (window-use-time w1)
                 (window-use-time w2)
                 (window-use-time m)
                 (window-old-point w1)
                 (window-old-point w2)
                 (window-old-point m)
                 (window-old-buffer w1)
                 (window-old-buffer w2)
                 (window-prev-buffers w1)
                 (window-prev-buffers w2)
                 (window-next-buffers w1)
                 (window-next-buffers w2)))
         (list (condition-case err (window-use-time 999999) (error err))
               (condition-case err (window-old-point 999999) (error err))
               (condition-case err (window-old-buffer 999999) (error err))
               (condition-case err (window-prev-buffers 999999) (error err))
               (condition-case err (window-next-buffers 999999) (error err))
               (condition-case err (window-use-time nil nil) (error err))
               (condition-case err (window-old-point nil nil) (error err))
               (condition-case err (window-old-buffer nil nil) (error err))
               (condition-case err (window-prev-buffers nil nil) (error err))
               (condition-case err (window-next-buffers nil nil) (error err)))")
    ;
    let out = ev.results(&forms);
    assert_eq!(out[0], "OK (1 0 1 1 nil nil nil nil nil nil)");
    assert_eq!(out[1], "OK (1 0 0 1 1 1 nil nil nil nil nil nil)");
    assert_eq!(
        out[2],
        "OK ((wrong-type-argument window-live-p 999999) (wrong-type-argument window-live-p 999999) (wrong-type-argument window-live-p 999999) (wrong-type-argument window-live-p 999999) (wrong-type-argument window-live-p 999999) (wrong-number-of-arguments window-use-time 2) (wrong-number-of-arguments window-old-point 2) (wrong-number-of-arguments window-old-buffer 2) (wrong-number-of-arguments window-prev-buffers 2) (wrong-number-of-arguments window-next-buffers 2))"
    );
}

#[test]
fn window_bump_use_time_tracks_second_most_recent_window() {
    let mut ev = Evaluator::new();
    let forms = parse_forms("(let* ((w1 (selected-window))
                (w2 (split-window-internal (selected-window) nil nil nil)))
           (list (window-use-time w1)
                 (window-use-time w2)
                 (window-bump-use-time w2)
                 (window-use-time w1)
                 (window-use-time w2)
                 (window-bump-use-time w1)))
         (list (condition-case err (window-bump-use-time 1) (error err))
               (condition-case err (window-bump-use-time nil nil) (error err))
               (let ((w (split-window-internal (selected-window) nil nil nil)))
                 (delete-window w)
                 (condition-case err (window-bump-use-time w) (error (car err)))))")
    ;
    let out = ev.results(&forms);
    assert_eq!(out[0], "OK (1 0 1 2 1 nil)");
    assert_eq!(
        out[1],
        "OK ((wrong-type-argument window-live-p 1) (wrong-number-of-arguments window-bump-use-time 2) wrong-type-argument)"
    );
}

#[test]
fn window_bump_use_time_shared_state_smoke() {
    let mut ev = Evaluator::new();
    let forms = parse_forms("(let* ((w1 (selected-window))
                (w2 (split-window-internal (selected-window) nil nil nil)))
           (list (window-use-time w1)
                 (window-use-time w2)
                 (window-bump-use-time w2)
                 (window-use-time w1)
                 (window-use-time w2)
                 (window-bump-use-time w1)))
         (list (condition-case err (window-bump-use-time 1) (error err))
               (condition-case err (window-bump-use-time nil nil) (error err)))")
    ;
    let out = ev.results(&forms);
    assert_eq!(out[0], "OK (1 0 1 2 1 nil)");
    assert_eq!(
        out[1],
        "OK ((wrong-type-argument window-live-p 1) (wrong-number-of-arguments window-bump-use-time 2))"
    );
}

#[test]
fn window_vscroll_helpers_match_batch_defaults_and_error_predicates() {
    let mut ev = Evaluator::new();
    let forms = parse_forms("(let* ((w (selected-window))
                (m (minibuffer-window)))
           (list (window-vscroll w)
                 (window-vscroll m)
                 (window-vscroll w t)
                 (window-vscroll m t)
                 (set-window-vscroll w 1)
                 (set-window-vscroll w 2 t)
                 (set-window-vscroll w 3 t t)
                 (set-window-vscroll nil 1.5)
                 (window-vscroll w)
                 (window-vscroll w t)))
         (list (condition-case err (window-vscroll 999999) (error err))
               (condition-case err (window-vscroll 'foo) (error err))
               (condition-case err (set-window-vscroll 999999 1) (error err))
               (condition-case err (set-window-vscroll 'foo 1) (error err))
               (condition-case err (set-window-vscroll nil 'foo) (error err))
               (condition-case err (window-vscroll nil nil nil) (error err))
               (condition-case err (set-window-vscroll nil 1 nil nil nil) (error err)))
         (let ((w (split-window-internal (selected-window) nil nil nil)))
           (delete-window w)
           (list (condition-case err (window-vscroll w) (error (car err)))
                 (condition-case err (set-window-vscroll w 1) (error (car err)))))")
    ;
    let out = ev.results(&forms);
    assert_eq!(out[0], "OK (0 0 0 0 0 0 0 0 0 0)");
    assert_eq!(
        out[1],
        "OK ((wrong-type-argument window-live-p 999999) (wrong-type-argument window-live-p foo) (wrong-type-argument window-live-p 999999) (wrong-type-argument window-live-p foo) (wrong-type-argument numberp foo) (wrong-number-of-arguments window-vscroll 3) (wrong-number-of-arguments set-window-vscroll 5))"
    );
    assert_eq!(out[2], "OK (wrong-type-argument wrong-type-argument)");
}

#[test]
fn window_scroll_state_shared_state_smoke() {
    let mut ev = Evaluator::new();
    let forms = parse_forms("(let* ((w (selected-window))
                (m (minibuffer-window)))
           (list (window-vscroll w)
                 (window-vscroll m)
                 (window-vscroll w t)
                 (window-vscroll m t)
                 (set-window-vscroll w 1)
                 (set-window-vscroll w 2 t)
                 (set-window-vscroll w 3 t t)
                 (set-window-vscroll nil 1.5)
                 (window-vscroll w)
                 (window-vscroll w t)
                 (window-hscroll w)
                 (set-window-hscroll w 3)
                 (window-hscroll w)
                 (set-window-hscroll w -1)
                 (window-hscroll w)
                 (set-window-hscroll w ?a)
                 (window-hscroll w)
                 (window-margins w)
                 (set-window-margins w 1 2)
                 (window-margins w)
                 (set-window-margins w 1 2)
                 (set-window-margins w nil nil)
                 (window-margins w)
                 (set-window-margins w 3)
                 (window-margins w)
                 (set-window-margins w 3)
                 (window-fringes w)
                 (window-fringes m)
                 (set-window-fringes w 0 0)
                 (set-window-fringes w 1 2)
                 (set-window-fringes w nil nil)
                 (window-fringes w)
                 (window-scroll-bars w)
                 (window-scroll-bars m)
                 (set-window-scroll-bars w nil nil nil nil)
                 (set-window-scroll-bars w 'left)
                 (window-scroll-bars w)))")
    ;
    let out = ev.results(&forms);
    assert_eq!(
        out[0],
        "OK (0 0 0 0 0 0 0 0 0 0 0 3 3 0 0 97 97 (nil) t (1 . 2) nil t (nil) t (3) nil (0 0 nil nil) (0 0 nil nil) nil nil nil (0 0 nil nil) (nil 0 t nil 0 t nil) (nil 0 t nil 0 t nil) nil nil (nil 0 t nil 0 t nil))"
    );
}

#[test]
fn window_hscroll_and_margin_setters_match_batch_defaults_and_error_predicates() {
    let mut ev = Evaluator::new();
    let forms = parse_forms("(let* ((w (selected-window))
                (m (minibuffer-window)))
           (list (window-hscroll w)
                 (set-window-hscroll w 3)
                 (window-hscroll w)
                 (set-window-hscroll w -1)
                 (window-hscroll w)
                 (set-window-hscroll w ?a)
                 (window-hscroll w)
                 (window-margins w)
                 (set-window-margins w 1 2)
                 (window-margins w)
                 (set-window-margins w 1 2)
                 (set-window-margins w nil nil)
                 (window-margins w)
                 (set-window-margins w 3)
                 (window-margins w)
                 (set-window-margins w 3)
                 (window-hscroll m)
                 (set-window-hscroll m 4)
                 (window-hscroll m)
                 (window-margins m)
                 (set-window-margins m 4 5)
                 (window-margins m)))
         (list (condition-case err (set-window-hscroll nil 1.5) (error err))
               (condition-case err (set-window-hscroll nil 'foo) (error err))
               (condition-case err (set-window-hscroll 999999 1) (error err))
               (condition-case err (set-window-hscroll 'foo 1) (error err))
               (condition-case err (set-window-hscroll nil) (error err))
               (condition-case err (set-window-hscroll nil 1 nil) (error err))
               (condition-case err (set-window-margins nil -1 0) (error err))
               (condition-case err (set-window-margins nil 1 -2) (error err))
               (condition-case err (set-window-margins nil 1.5 0) (error err))
               (condition-case err (set-window-margins nil 'foo 0) (error err))
               (condition-case err (set-window-margins nil 1 'foo) (error err))
               (condition-case err (set-window-margins 999999 1 2) (error err))
               (condition-case err (set-window-margins 'foo 1 2) (error err))
               (condition-case err (set-window-margins nil) (error err))
               (condition-case err (set-window-margins nil 1 2 3) (error err)))
         (let ((w (split-window-internal (selected-window) nil nil nil)))
           (delete-window w)
           (list (condition-case err (set-window-hscroll w 1) (error (car err)))
                 (condition-case err (set-window-margins w 1 2) (error (car err)))))")
    ;
    let out = ev.results(&forms);
    assert_eq!(
        out[0],
        "OK (0 3 3 0 0 97 97 (nil) t (1 . 2) nil t (nil) t (3) nil 0 4 4 (nil) t (4 . 5))"
    );
    assert_eq!(
        out[1],
        "OK ((wrong-type-argument fixnump 1.5) (wrong-type-argument fixnump foo) (wrong-type-argument window-live-p 999999) (wrong-type-argument window-live-p foo) (wrong-number-of-arguments set-window-hscroll 1) (wrong-number-of-arguments set-window-hscroll 3) (args-out-of-range -1 0 2147483647) (args-out-of-range -2 0 2147483647) (wrong-type-argument integerp 1.5) (wrong-type-argument integerp foo) (wrong-type-argument integerp foo) (wrong-type-argument window-live-p 999999) (wrong-type-argument window-live-p foo) (wrong-number-of-arguments set-window-margins 1) (wrong-number-of-arguments set-window-margins 4))"
    );
    assert_eq!(out[2], "OK (wrong-type-argument wrong-type-argument)");
}

#[test]
fn window_fringes_and_scroll_bar_setters_match_batch_defaults_and_error_predicates() {
    let mut ev = Evaluator::new();
    let forms = parse_forms("(let* ((w (selected-window))
                (m (minibuffer-window)))
           (list (window-fringes w)
                 (window-fringes m)
                 (set-window-fringes w 0 0)
                 (set-window-fringes w 1 2)
                 (set-window-fringes w nil nil)
                 (window-fringes w)
                 (window-fringes m)
                 (window-scroll-bars w)
                 (window-scroll-bars m)
                 (set-window-scroll-bars w nil nil nil nil)
                 (set-window-scroll-bars w 'left)
                 (window-scroll-bars w)
                 (window-scroll-bars m)
                 (set-window-fringes m 0 0)
                 (set-window-scroll-bars m nil)
                 (window-fringes m)
                 (window-scroll-bars m)))
         (list (condition-case err (set-window-fringes nil 1 2 nil nil nil) (error err))
               (condition-case err (set-window-scroll-bars nil nil nil nil nil nil nil) (error err))
               (condition-case err (set-window-fringes 999999 0 0) (error err))
               (condition-case err (set-window-fringes 'foo 0 0) (error err))
               (condition-case err (set-window-scroll-bars 999999 nil) (error err))
               (condition-case err (set-window-scroll-bars 'foo nil) (error err))
               (condition-case err (set-window-fringes nil) (error err))
               (condition-case err (set-window-scroll-bars) (error err)))
         (let ((w (split-window-internal (selected-window) nil nil nil)))
           (delete-window w)
           (list (condition-case err (set-window-fringes w 0 0) (error (car err)))
                 (condition-case err (set-window-scroll-bars w nil) (error (car err)))))")
    ;
    let out = ev.results(&forms);
    assert_eq!(
        out[0],
        "OK ((0 0 nil nil) (0 0 nil nil) nil nil nil (0 0 nil nil) (0 0 nil nil) (nil 0 t nil 0 t nil) (nil 0 t nil 0 t nil) nil nil (nil 0 t nil 0 t nil) (nil 0 t nil 0 t nil) nil nil (0 0 nil nil) (nil 0 t nil 0 t nil))"
    );
    assert_eq!(
        out[1],
        "OK ((wrong-number-of-arguments set-window-fringes 6) (wrong-number-of-arguments set-window-scroll-bars 7) (wrong-type-argument window-live-p 999999) (wrong-type-argument window-live-p foo) (wrong-type-argument window-live-p 999999) (wrong-type-argument window-live-p foo) (wrong-number-of-arguments set-window-fringes 1) (wrong-number-of-arguments set-window-scroll-bars 0))"
    );
    assert_eq!(out[2], "OK (wrong-type-argument wrong-type-argument)");
}

#[test]
fn window_parameter_helpers_match_batch_defaults_and_key_semantics() {
    let mut ev = Evaluator::new();
    let forms = parse_forms("(let* ((w (selected-window))
                (m (minibuffer-window)))
           (list (window-parameters w)
                 (window-parameters m)
                 (window-parameter w 'foo)
                 (window-parameter m 'foo)
                 (set-window-parameter w 'foo 'bar)
                 (window-parameter w 'foo)
                 (window-parameters w)
                 (set-window-parameter m 'foo 42)
                 (window-parameter m 'foo)
                 (window-parameters m)
                 (set-window-parameter w 'foo nil)
                 (window-parameter w 'foo)
                 (window-parameters w)
                 (set-window-parameter w 1 2)
                 (window-parameter w 1)
                 (window-parameters w)))
         (list (condition-case err (window-parameter 999999 'foo) (error err))
               (condition-case err (set-window-parameter 999999 'foo 'bar) (error err))
               (condition-case err (window-parameters 999999) (error err))
               (condition-case err (window-parameter nil) (error err))
               (condition-case err (window-parameter nil nil nil) (error err))
               (condition-case err (set-window-parameter nil nil) (error err))
               (condition-case err (set-window-parameter nil nil nil nil) (error err))
               (condition-case err (window-parameters nil nil) (error err))
               (condition-case err (window-parameter 'foo 'bar) (error err))
               (condition-case err (set-window-parameter 'foo 'bar 'baz) (error err)))")
    ;
    let out = ev.results(&forms);
    assert_eq!(
        out[0],
        "OK (nil nil nil nil bar bar ((foo . bar)) 42 42 ((foo . 42)) nil nil ((foo)) 2 2 ((1 . 2) (foo)))"
    );
    assert_eq!(
        out[1],
        "OK ((wrong-type-argument windowp 999999) (wrong-type-argument windowp 999999) (wrong-type-argument window-valid-p 999999) (wrong-number-of-arguments window-parameter 1) (wrong-number-of-arguments window-parameter 3) (wrong-number-of-arguments set-window-parameter 2) (wrong-number-of-arguments set-window-parameter 4) (wrong-number-of-arguments window-parameters 2) (wrong-type-argument windowp foo) (wrong-type-argument windowp foo))"
    );
}

#[test]
fn window_display_table_helpers_match_batch_defaults_and_set_get_semantics() {
    let mut ev = Evaluator::new();
    let forms = parse_forms("(let* ((w (selected-window))
                (m (minibuffer-window))
                (dt '(1 2 3)))
           (list (null (window-display-table w))
                 (null (window-display-table m))
                 (let ((rv (set-window-display-table w dt))) (equal rv dt))
                 (equal (window-display-table w) dt)
                 (null (set-window-display-table w nil))
                 (null (window-display-table w))
                 (let ((rv (set-window-display-table m dt))) (equal rv dt))
                 (equal (window-display-table m) dt)
                 (eq (set-window-display-table m 'foo) 'foo)
                 (eq (window-display-table m) 'foo)
                 (null (set-window-display-table m nil))
                 (null (window-display-table m))))
         (list (condition-case err (window-display-table nil nil) (error err))
               (condition-case err (set-window-display-table nil nil nil) (error err))
               (condition-case err (window-display-table 999999) (error err))
               (condition-case err (set-window-display-table 999999 nil) (error err))
               (condition-case err (window-display-table 'foo) (error err))
               (condition-case err (set-window-display-table 'foo nil) (error err)))
         (let ((w (split-window-internal (selected-window) nil nil nil)))
           (delete-window w)
           (list (condition-case err (window-display-table w) (error (car err)))
                 (condition-case err (set-window-display-table w nil) (error (car err)))))")
    ;
    let out = ev.results(&forms);
    assert_eq!(out[0], "OK (t t t t t t t t t t t t)");
    assert_eq!(
        out[1],
        "OK ((wrong-number-of-arguments window-display-table 2) (wrong-number-of-arguments set-window-display-table 3) (wrong-type-argument window-live-p 999999) (wrong-type-argument window-live-p 999999) (wrong-type-argument window-live-p foo) (wrong-type-argument window-live-p foo))"
    );
    assert_eq!(out[2], "OK (wrong-type-argument wrong-type-argument)");
}

#[test]
fn window_cursor_type_helpers_match_batch_defaults_and_set_get_semantics() {
    let mut ev = Evaluator::new();
    let forms = parse_forms("(let* ((w (selected-window))
                (m (minibuffer-window)))
           (list (window-cursor-type w)
                 (window-cursor-type m)
                 (set-window-cursor-type w nil)
                 (window-cursor-type w)
                 (set-window-cursor-type w 'bar)
                 (window-cursor-type w)
                 (set-window-cursor-type w t)
                 (window-cursor-type w)
                 (set-window-cursor-type m 'hbar)
                 (window-cursor-type m)
                 (set-window-cursor-type m nil)
                 (window-cursor-type m)))
         (list (condition-case err (window-cursor-type nil nil) (error err))
               (condition-case err (set-window-cursor-type nil) (error err))
               (condition-case err (set-window-cursor-type nil nil nil) (error err))
               (condition-case err (window-cursor-type 999999) (error err))
               (condition-case err (set-window-cursor-type 999999 nil) (error err))
               (condition-case err (window-cursor-type 'foo) (error err))
               (condition-case err (set-window-cursor-type 'foo nil) (error err)))
         (let ((w (split-window-internal (selected-window) nil nil nil)))
           (delete-window w)
           (list (condition-case err (window-cursor-type w) (error (car err)))
                 (condition-case err (set-window-cursor-type w nil) (error (car err)))))")
    ;
    let out = ev.results(&forms);
    assert_eq!(out[0], "OK (t t nil nil bar bar t t hbar hbar nil nil)");
    assert_eq!(
        out[1],
        "OK ((wrong-number-of-arguments window-cursor-type 2) (wrong-number-of-arguments set-window-cursor-type 1) (wrong-number-of-arguments set-window-cursor-type 3) (wrong-type-argument window-live-p 999999) (wrong-type-argument window-live-p 999999) (wrong-type-argument window-live-p foo) (wrong-type-argument window-live-p foo))"
    );
    assert_eq!(out[2], "OK (wrong-type-argument wrong-type-argument)");
}

#[test]
fn window_metadata_shared_state_smoke() {
    let mut ev = Evaluator::new();
    let forms = parse_forms("(let* ((w (selected-window))
                (m (minibuffer-window))
                (dt '(1 2 3)))
           (list (window-dedicated-p w)
                 (set-window-dedicated-p w t)
                 (window-dedicated-p w)
                 (set-window-dedicated-p w nil)
                 (window-dedicated-p w)
                 (null (window-parameters w))
                 (set-window-parameter w 'foo 'bar)
                 (window-parameter w 'foo)
                 (equal (window-parameters w) '((foo . bar)))
                 (set-window-parameter w 'foo nil)
                 (equal (window-parameters w) '((foo)))
                 (null (window-display-table w))
                 (let ((rv (set-window-display-table w dt))) (equal rv dt))
                 (equal (window-display-table w) dt)
                 (null (set-window-display-table w nil))
                 (null (window-display-table w))
                 (window-cursor-type w)
                 (set-window-cursor-type w 'bar)
                 (window-cursor-type w)
                 (set-window-cursor-type w t)
                 (window-cursor-type w)
                 (set-window-cursor-type m nil)
                 (window-cursor-type m)))
         (list (condition-case err (window-parameter 999999 'foo) (error err))
               (condition-case err (set-window-parameter 999999 'foo 'bar) (error err))
               (condition-case err (window-display-table 999999) (error err))
               (condition-case err (set-window-display-table 999999 nil) (error err))
               (condition-case err (window-cursor-type 999999) (error err))
               (condition-case err (set-window-cursor-type 999999 nil) (error err))
               (condition-case err (set-window-dedicated-p 999999 t) (error err)))")
    ;
    let out = ev.results(&forms);
    assert_eq!(
        out[0],
        "OK (nil t t nil nil t bar bar t nil t t t t t t t bar bar t t nil nil)"
    );
    assert_eq!(
        out[1],
        "OK ((wrong-type-argument windowp 999999) (wrong-type-argument windowp 999999) (wrong-type-argument window-live-p 999999) (wrong-type-argument window-live-p 999999) (wrong-type-argument window-live-p 999999) (wrong-type-argument window-live-p 999999) (wrong-type-argument window-live-p 999999))"
    );
}

#[test]
fn window_tree_navigation_and_normal_size_match_gnu_runtime() {
    let out = startup_eval_with_frame(
        "(let* ((left (selected-window))
                (right (split-window nil nil 'right))
                (bottom (split-window right nil 'below))
                (root (frame-root-window))
                (vparent (window-parent right)))
           (list (window-valid-p root)
                 (window-live-p root)
                 (eq (window-parent left) root)
                 (eq (window-next-sibling left) vparent)
                 (eq (window-left-child root) left)
                 (window-top-child root)
                 (eq (window-parent right) vparent)
                 (eq (window-parent bottom) vparent)
                 (eq (window-top-child vparent) right)
                 (window-left-child vparent)
                 (eq (window-next-sibling right) bottom)
                 (eq (window-prev-sibling bottom) right)
                 (window-normal-size left)
                 (window-normal-size left t)
                 (window-normal-size right)
                 (window-normal-size right t)
                 (window-normal-size vparent)
                 (window-normal-size vparent t)))",
    );
    assert_eq!(
        out[0],
        "OK (t nil t t t nil t t t nil t t 1.0 0.5 0.5 1.0 1.0 0.5)"
    );
}

#[test]
fn window_geometry_queries_match_batch_alias_and_edge_shapes() {
    let out = startup_eval_with_frame(
        "(list (symbol-function 'window-inside-pixel-edges)
               (symbol-function 'window-inside-edges))
         (let* ((w (selected-window))
                (m (minibuffer-window)))
           (list (window-mode-line-height w)
                 (window-mode-line-height m)
                 (window-header-line-height w)
                 (window-header-line-height m)
                 (window-pixel-height w)
                 (window-pixel-height m)
                 (window-pixel-width w)
                 (window-pixel-width m)
                 (window-text-height w)
                 (window-text-height m)
                 (window-text-height w t)
                 (window-text-height m t)
                 (window-text-width w)
                 (window-text-width m)
                 (window-text-width w t)
                 (window-text-width m t)
                 (window-body-pixel-edges w)
                 (window-body-pixel-edges m)
                 (window-pixel-edges w)
                 (window-pixel-edges m)
                 (window-body-edges w)
                 (window-body-edges m)
                 (window-edges w)
                 (window-edges m)
                 (window-edges w t)
                 (window-edges m t)))
         (list (condition-case err (window-mode-line-height 999999) (error err))
               (condition-case err (window-header-line-height 999999) (error err))
               (condition-case err (window-pixel-height 999999) (error err))
               (condition-case err (window-pixel-width 999999) (error err))
               (condition-case err (window-text-height 999999) (error err))
               (condition-case err (window-text-width 999999) (error err))
               (condition-case err (window-body-pixel-edges 999999) (error err))
               (condition-case err (window-pixel-edges 999999) (error err))
               (condition-case err (window-body-edges 999999) (error err))
               (condition-case err (window-edges 999999) (error err))
               (condition-case err (window-text-height nil nil nil) (error err))
               (condition-case err (window-mode-line-height nil nil) (error err))
               (condition-case err (window-inside-pixel-edges nil nil) (error (car err)))
               (condition-case err (window-edges nil nil nil nil) (error err))
               (condition-case err (window-edges nil nil nil nil nil) (error err)))",
    );
    assert_eq!(out[0], "OK (window-body-pixel-edges window-body-edges)");
    assert_eq!(
        out[1],
        "OK (1 0 0 0 24 1 80 80 23 1 23 1 80 80 80 80 (0 0 80 23) (0 24 80 25) (0 0 80 24) (0 24 80 25) (0 0 80 23) (0 24 80 25) (0 0 80 24) (0 24 80 25) (0 0 80 23) (0 24 80 25))"
    );
    assert_eq!(
        out[2],
        "OK ((wrong-type-argument window-live-p 999999) (wrong-type-argument window-live-p 999999) (wrong-type-argument window-valid-p 999999) (wrong-type-argument window-valid-p 999999) (wrong-type-argument window-live-p 999999) (wrong-type-argument window-live-p 999999) (error \"999999 is not a live window\") (error \"999999 is not a valid window\") (error \"999999 is not a live window\") (error \"999999 is not a valid window\") (wrong-number-of-arguments window-text-height 3) (wrong-number-of-arguments window-mode-line-height 2) wrong-number-of-arguments (0 0 80 24) (wrong-number-of-arguments window-edges 5))"
    );
}

#[test]
fn next_window_cycles() {
    let results = eval_with_frame(
        "(let ((w1 (selected-window)))
           (split-window-internal (selected-window) nil nil nil)
           (let ((w2 (next-window)))
             (not (eq w1 w2))))",
    );
    assert_eq!(results[0], "OK t");
}

#[test]
fn one_window_p_tracks_current_window_count() {
    let results = startup_eval_with_frame(
        "(list (one-window-p)
               (progn
                 (split-window-internal (selected-window) nil nil nil)
                 (one-window-p)))",
    );
    assert_eq!(results[0], "OK (t nil)");
}

#[test]
fn one_window_p_enforces_max_arity() {
    let results = startup_eval_with_frame(
        "(condition-case err (one-window-p nil nil nil) (error (car err)))",
    );
    assert_eq!(results[0], "OK wrong-number-of-arguments");
}

#[test]
fn next_previous_window_enforce_max_arity() {
    let mut ev = Evaluator::new();
    let forms = parse_forms("(condition-case err (next-window nil nil nil nil) (error (car err)))
         (condition-case err (previous-window nil nil nil nil) (error (car err)))
         (let ((w1 (selected-window)))
           (split-window-internal (selected-window) nil nil nil)
           (windowp (next-window w1 nil nil)))
         (let ((w1 (selected-window)))
           (split-window-internal (selected-window) nil nil nil)
           (windowp (previous-window w1 nil nil)))")
    ;
    let out = ev.results(&forms);
    assert_eq!(out[0], "OK wrong-number-of-arguments");
    assert_eq!(out[1], "OK wrong-number-of-arguments");
    assert_eq!(out[2], "OK t");
    assert_eq!(out[3], "OK t");
}

#[test]
fn previous_window_wraps() {
    let results = eval_with_frame(
        "(split-window-internal (selected-window) nil nil nil)
         (let ((w (previous-window)))
           (windowp w))",
    );
    assert_eq!(results[1], "OK t");
}

// -- Frame operations --

#[test]
fn frame_ops_enforce_max_arity() {
    let mut ev = Evaluator::new();
    let forms = parse_forms("(condition-case err (make-frame nil nil) (error (car err)))
         (condition-case err (delete-frame nil nil nil) (error (car err)))
         (condition-case err (frame-parameter nil 'name nil) (error (car err)))
         (condition-case err (frame-parameters nil nil) (error (car err)))
         (condition-case err (modify-frame-parameters nil nil nil) (error (car err)))
         (condition-case err (frame-visible-p nil nil) (error (car err)))")
    ;
    let out = ev.results(&forms);
    assert_eq!(out[0], "OK wrong-number-of-arguments");
    assert_eq!(out[1], "OK wrong-number-of-arguments");
    assert_eq!(out[2], "OK wrong-number-of-arguments");
    assert_eq!(out[3], "OK wrong-number-of-arguments");
    assert_eq!(out[4], "OK wrong-number-of-arguments");
    assert_eq!(out[5], "OK wrong-number-of-arguments");
}

#[test]
fn frame_visible_p_enforces_arity_and_designators() {
    let mut ev = Evaluator::new();
    let forms = parse_forms("(condition-case err (frame-visible-p) (error (car err)))
         (condition-case err (frame-visible-p nil) (error err))
         (condition-case err (frame-visible-p 999999) (error err))
         (frame-visible-p (selected-frame))")
    ;
    let out = ev.results(&forms);
    assert_eq!(out[0], "OK wrong-number-of-arguments");
    assert_eq!(out[1], "OK (wrong-type-argument frame-live-p nil)");
    assert_eq!(out[2], "OK (wrong-type-argument frame-live-p 999999)");
    assert_eq!(out[3], "OK t");
}

#[test]
fn frame_designator_errors_use_emacs_predicates() {
    let mut ev = Evaluator::new();
    let forms = parse_forms("(condition-case err (frame-parameter \"x\" 'name) (error err))
         (condition-case err (frame-parameter 999999 'name) (error err))
         (condition-case err (frame-parameters \"x\") (error err))
         (condition-case err (frame-parameters 999999) (error err))
         (condition-case err (modify-frame-parameters \"x\" nil) (error err))
         (condition-case err (modify-frame-parameters 999999 nil) (error err))
         (condition-case err (delete-frame \"x\") (error err))
         (condition-case err (delete-frame 999999) (error err))
         (frame-parameter nil 'name)
         (condition-case err (modify-frame-parameters nil nil) (error err))")
    ;
    let out = ev.results(&forms);
    assert_eq!(out[0], "OK (wrong-type-argument framep \"x\")");
    assert_eq!(out[1], "OK (wrong-type-argument framep 999999)");
    assert_eq!(out[2], "OK (wrong-type-argument framep \"x\")");
    assert_eq!(out[3], "OK (wrong-type-argument framep 999999)");
    assert_eq!(out[4], "OK (wrong-type-argument frame-live-p \"x\")");
    assert_eq!(out[5], "OK (wrong-type-argument frame-live-p 999999)");
    assert_eq!(out[6], "OK (wrong-type-argument framep \"x\")");
    assert_eq!(out[7], "OK (wrong-type-argument framep 999999)");
    assert_eq!(out[8], "OK \"F1\"");
    assert_eq!(out[9], "OK nil");
}

#[test]
fn frame_query_builtins_match_gnu_batch_startup_geometry() {
    let mut ev = Evaluator::new();
    let forms = parse_forms(r#"(list (frame-char-height)
                 (frame-char-width)
                 (frame-native-height)
                 (frame-native-width)
                 (frame-text-cols)
                 (frame-text-lines)
                 (frame-text-width)
                 (frame-text-height)
                 (frame-total-cols)
                 (frame-total-lines)
                 (frame-position))"#)
    ;
    let out = ev.results(&forms);
    assert_eq!(out[0], "OK (1 1 25 80 80 25 80 25 80 25 (0 . 0))");
}

#[test]
fn frame_query_builtins_report_pixel_sizes_for_gui_frames() {
    let mut ui = Ui::new();
    let buf = ui.buffers.create_buffer("*scratch*");
    let fid = ui.frames.create_frame(Value::string("gui"), 800, 600, buf);
    let i = ui.frames.index_of(fid);
    ui.frames.list[i].set_parameter("window-system", Value::symbol("neomacs"));

    assert_eq!(
        builtin_frame_native_width(&mut ui, &vec![Value::Frame(fid)]).unwrap(),
        Value::Int(800)
    );
    assert_eq!(
        builtin_frame_native_height(&mut ui, &vec![Value::Frame(fid)]).unwrap(),
        Value::Int(600)
    );
    assert_eq!(
        builtin_frame_text_width(&mut ui, &vec![Value::Frame(fid)]).unwrap(),
        Value::Int(800)
    );
    assert_eq!(
        builtin_frame_text_height(&mut ui, &vec![Value::Frame(fid)]).unwrap(),
        Value::Int(600)
    );
}

#[test]
fn select_frame_arity_designators_and_selection() {
    let mut ev = Evaluator::new();
    let forms = parse_forms("(condition-case err (select-frame) (error (car err)))
         (condition-case err (select-frame nil) (error err))
         (condition-case err (select-frame \"x\") (error err))
         (condition-case err (select-frame 999999) (error err))
         (let ((f1 (selected-frame))
               (f2 (make-frame)))
           (prog1
               (list (framep (select-frame f2))
                     (eq (selected-frame) f2))
             (select-frame f1)
             (delete-frame f2)))")
    ;
    let out = ev.results(&forms);
    assert_eq!(out[0], "OK wrong-number-of-arguments");
    assert_eq!(out[1], "OK (wrong-type-argument frame-live-p nil)");
    assert_eq!(out[2], "OK (wrong-type-argument frame-live-p \"x\")");
    assert_eq!(out[3], "OK (wrong-type-argument frame-live-p 999999)");
    assert_eq!(out[4], "OK (t t)");
}

#[test]
fn select_frame_set_input_focus_arity_designators_and_result() {
    let mut ev = Evaluator::new();
    let forms = parse_forms("(condition-case err (select-frame-set-input-focus) (error (car err)))
         (condition-case err (select-frame-set-input-focus nil) (error err))
         (condition-case err (select-frame-set-input-focus \"x\") (error err))
         (condition-case err (select-frame-set-input-focus 999999) (error err))
         (let ((f (selected-frame)))
           (list (select-frame-set-input-focus f)
                 (eq (selected-frame) f)))")
    ;
    let out = ev.results(&forms);
    assert_eq!(out[0], "OK wrong-number-of-arguments");
    assert_eq!(out[1], "OK (wrong-type-argument frame-live-p nil)");
    assert_eq!(out[2], "OK (wrong-type-argument frame-live-p \"x\")");
    assert_eq!(out[3], "OK (wrong-type-argument frame-live-p 999999)");
    assert_eq!(out[4], "OK (nil t)");
}

#[test]
fn set_frame_selected_window_matches_selection_and_error_semantics() {
    let mut ev = Evaluator::new();
    let forms = parse_forms("(condition-case err (set-frame-selected-window) (error (car err)))
         (condition-case err (set-frame-selected-window nil nil) (error err))
         (condition-case err (set-frame-selected-window nil 999999) (error err))
         (let* ((w1 (selected-window))
                (w2 (split-window-internal (selected-window) nil nil nil)))
           (prog1
               (list (eq (set-frame-selected-window nil w2) w2)
                     (eq (selected-window) w2))
             (select-window w1)
             (delete-window w2)))
         (let* ((w1 (selected-window))
                (w2 (split-window-internal (selected-window) nil nil nil))
                (t1 (window-use-time w1))
                (t2 (window-use-time w2)))
           (prog1
               (list (eq (set-frame-selected-window nil w2 t) w2)
                     (= (window-use-time w1) t1)
                     (= (window-use-time w2) t2)
                     (eq (selected-window) w2))
             (select-window w1)
             (delete-window w2)))
         (let* ((f1 (selected-frame))
                (f2 (make-frame))
                (w2 (progn
                      (select-frame f2)
                      (split-window-internal (selected-window) nil nil nil))))
           (select-frame f1)
           (prog1
               (list (eq (set-frame-selected-window f2 w2) w2)
                     (eq (selected-frame) f1)
                     (eq (frame-selected-window f2) w2))
             (select-frame f2)
             (delete-window w2)
             (select-frame f1)
             (delete-frame f2)))
         (let* ((f2 (make-frame))
                (w1 (selected-window)))
           (prog1
               (condition-case err (set-frame-selected-window f2 w1) (error err))
             (delete-frame f2)))
         (let* ((w1 (selected-window))
                (w2 (split-window-internal (selected-window) nil nil nil)))
           (prog1
               (list (eq (funcall #'set-frame-selected-window nil w2) w2)
                     (eq (apply #'set-frame-selected-window (list nil w1)) w1))
             (select-window w1)
             (delete-window w2)))
         (list (condition-case err (funcall #'set-frame-selected-window nil (selected-window) nil nil) (error err))
               (condition-case err (apply #'set-frame-selected-window '(nil)) (error err)))")
    ;
    let out = ev.results(&forms);
    assert_eq!(out[0], "OK wrong-number-of-arguments");
    assert_eq!(out[1], "OK (wrong-type-argument window-live-p nil)");
    assert_eq!(out[2], "OK (wrong-type-argument window-live-p 999999)");
    assert_eq!(out[3], "OK (t t)");
    assert_eq!(out[4], "OK (t t t t)");
    assert_eq!(out[5], "OK (t t t)");
    assert_eq!(
        out[6],
        "OK (error \"In `set-frame-selected-window', WINDOW is not on FRAME\")"
    );
    assert_eq!(out[7], "OK (t t)");
    assert_eq!(
        out[8],
        "OK ((wrong-number-of-arguments #<subr set-frame-selected-window> 4) (wrong-number-of-arguments #<subr set-frame-selected-window> 1))"
    );
}

#[test]
fn old_selected_window_matches_stable_and_stale_window_semantics() {
    let mut ev = Evaluator::new();
    let forms = parse_forms("(windowp (old-selected-window))
         (let* ((w1 (selected-window))
                (w2 (split-window-internal (selected-window) nil nil nil)))
           (prog1
               (list (eq (old-selected-window) w1)
                     (progn (select-window w2) (eq (old-selected-window) w1))
                     (progn (select-window w1) (eq (old-selected-window) w1))
                     (progn (other-window 1) (eq (old-selected-window) w1))
                     (progn (other-window 1) (eq (old-selected-window) w1))
                     (progn (select-window w2 t) (eq (old-selected-window) w1))
                     (progn (select-window w1 t) (eq (old-selected-window) w1)))
             (select-window w1)
             (delete-window w2)))
         (let* ((w1 (selected-window))
                (w2 (split-window-internal (selected-window) nil nil nil)))
           (prog1
               (list (progn (select-window w2) (eq (old-selected-window) w1))
                     (progn (delete-window w1) (windowp (old-selected-window)))
                     (window-live-p (old-selected-window))
                     (eq (old-selected-window) w2))
             (delete-other-windows w2)))
         (list (condition-case err (old-selected-window nil) (error (car err)))
               (eq (funcall #'old-selected-window) (old-selected-window))
               (eq (apply #'old-selected-window nil) (old-selected-window))
               (condition-case err (funcall #'old-selected-window nil) (error (car err)))
               (condition-case err (apply #'old-selected-window '(nil)) (error (car err))))")
    ;
    let out = ev.results(&forms);
    assert_eq!(out[0], "OK t");
    assert_eq!(out[1], "OK (t t t t t t t)");
    assert_eq!(out[2], "OK (t t nil nil)");
    assert_eq!(
        out[3],
        "OK (wrong-number-of-arguments t t wrong-number-of-arguments wrong-number-of-arguments)"
    );
}

#[test]
fn frame_old_selected_window_matches_batch_and_arity_semantics() {
    let mut ev = Evaluator::new();
    let forms = parse_forms("(condition-case err (frame-old-selected-window 999999) (error err))
         (condition-case err (frame-old-selected-window 'foo) (error err))
         (condition-case err (frame-old-selected-window nil nil) (error (car err)))
         (let ((f (selected-frame)))
           (list (frame-old-selected-window)
                 (frame-old-selected-window nil)
                 (frame-old-selected-window f)
                 (frame-old-selected-window (window-frame (selected-window)))))
         (let* ((w1 (selected-window))
                (w2 (split-window-internal (selected-window) nil nil nil)))
           (prog1
               (list (eq (frame-old-selected-window) nil)
                     (progn (select-window w2) (eq (frame-old-selected-window) nil))
                     (progn (other-window 1) (eq (frame-old-selected-window) nil))
                     (progn (set-frame-selected-window nil w2) (eq (frame-old-selected-window) nil))
                     (progn (set-frame-selected-window nil w1) (eq (frame-old-selected-window) nil))
                     (progn (set-frame-selected-window nil w2 t) (eq (frame-old-selected-window) nil))
                     (progn (set-frame-selected-window nil w1 t) (eq (frame-old-selected-window) nil)))
             (select-window w1)
             (delete-window w2)))
         (list (condition-case err (funcall #'frame-old-selected-window nil nil) (error err))
               (condition-case err (apply #'frame-old-selected-window '(nil nil)) (error err))
               (eq (funcall #'frame-old-selected-window) (frame-old-selected-window))
               (eq (apply #'frame-old-selected-window nil) (frame-old-selected-window)))")
    ;
    let out = ev.results(&forms);
    assert_eq!(out[0], "OK (wrong-type-argument frame-live-p 999999)");
    assert_eq!(out[1], "OK (wrong-type-argument frame-live-p foo)");
    assert_eq!(out[2], "OK wrong-number-of-arguments");
    assert_eq!(out[3], "OK (nil nil nil nil)");
    assert_eq!(out[4], "OK (t t t t t t t)");
    assert_eq!(
        out[5],
        "OK ((wrong-number-of-arguments #<subr frame-old-selected-window> 2) (wrong-number-of-arguments #<subr frame-old-selected-window> 2) t t)"
    );
}

#[test]
fn frame_old_selected_window_direct_wrapper_matches_batch_nil_semantics() {
    let mut ui = Ui::new();
    let fid = ensure_selected_frame_id(&mut ui);

    assert_eq!(
        builtin_frame_old_selected_window(&mut ui, &vec![]).unwrap(),
        Value::Nil
    );
    assert_eq!(
        builtin_frame_old_selected_window(&mut ui, &vec![Value::Nil]).unwrap(),
        Value::Nil
    );
    assert_eq!(
        builtin_frame_old_selected_window(&mut ui, &vec![Value::Frame(fid)]).unwrap(),
        Value::Nil
    );

    let err = builtin_frame_old_selected_window(&mut ui, &vec![Value::Int(999999)])
        .expect_err("invalid frame should signal");
    match err {
        Flow::Signal(sig) => {
            assert_eq!(sig.symbol_name(), "wrong-type-argument");
            assert_eq!(
                sig.data,
                Value::list(vec![Value::symbol("frame-live-p"), Value::Int(999999)])
            );
        }
    }
}

#[test]
fn selected_frame_returns_frame_handle() {
    let r = eval_one_with_frame(
        "(let ((f (selected-frame)))
           (list (framep f)
                 (frame-live-p f)
                 (integerp f)
                 (eq f (window-frame))))",
    );
    assert_eq!(r, "OK (t t nil t)");
}

#[test]
fn frame_list_has_one() {
    let r = eval_one_with_frame("(length (frame-list))");
    assert_eq!(r, "OK 1");
}

#[test]
fn make_frame_creates_new() {
    let results = eval_with_frame(
        "(make-frame)
         (length (frame-list))",
    );
    assert!(results[0].starts_with("OK "));
    assert_eq!(results[1], "OK 2");
}

#[test]
fn x_create_frame_creates_live_frame_and_preserves_char_geometry_params() {
    let mut ui = Ui::new();
    let scratch = ui.buffers.create_buffer("*scratch*");
    let fid = ui
        .frames
        .create_frame(Value::string("bootstrap"), 800, 600, scratch);
    let i = ui.frames.index_of(fid);
    ui.frames.list[i].set_parameter("window-system", Value::symbol("neomacs"));

    let params = Value::list(vec![
        Value::cons(Value::symbol("name"), Value::string("GUI")),
        Value::cons(Value::symbol("width"), Value::Int(80)),
        Value::cons(Value::symbol("height"), Value::Int(25)),
        Value::cons(Value::symbol("visibility"), Value::Nil),
    ]);
    let created_id = builtin_x_create_frame(&mut ui, &vec![params])
        .expect("x-create-frame")
        .frame_id;

    assert_ne!(created_id, fid);
    let frame = ui.frames.get(created_id).expect("created frame");
    assert_eq!(ui.frames.frame_list().len(), 2);
    assert_eq!(frame.name, Value::string("GUI"));
    assert_eq!(frame.parameter("width"), Some(Value::Int(80)));
    assert_eq!(frame.parameter("height"), Some(Value::Int(25)));
    assert!(!frame.visible);
    assert_eq!(frame.char_width, 8);
    assert_eq!(frame.char_height, 16);
}

#[test]
fn x_create_frame_creates_opening_frame_and_notifies_host() {
    let mut ui = Ui::new();
    let scratch = ui.buffers.create_buffer("*scratch*");
    let fid = ui
        .frames
        .create_frame(Value::string("bootstrap"), 960, 640, scratch);
    let i = ui.frames.index_of(fid);
    ui.frames.list[i].set_parameter("window-system", Value::symbol("neomacs"));
    let minibuffer = ui.frames.list[i].minibuffer_leaf.expect("minibuffer");
    ui.frames.list[i].minibuffer_leaf = Some(Leaf {
        bounds: Rect {
            x: 0,
            y: 608,
            width: 960,
            height: 32,
        },
        ..minibuffer
    });

    let params = Value::list(vec![
        Value::cons(Value::symbol("name"), Value::string("Neomacs")),
        Value::cons(Value::symbol("title"), Value::string("Neomacs")),
        Value::cons(Value::symbol("width"), Value::Int(80)),
        Value::cons(Value::symbol("height"), Value::Int(25)),
    ]);
    let request = builtin_x_create_frame(&mut ui, &vec![params]).expect("x-create-frame");

    let created_id = request.frame_id;
    assert_ne!(created_id, fid);
    assert_eq!(ui.frames.frame_list().len(), 2);
    let frame = ui.frames.get(created_id).expect("created opening frame");
    assert_eq!(frame.parameter("width"), Some(Value::Int(80)));
    assert_eq!(frame.parameter("height"), Some(Value::Int(25)));
    assert_eq!(request.title, "Neomacs");
    assert_eq!(request.width, frame.width);
    assert_eq!(request.height, frame.height);
}

#[test]
fn delete_frame_works() {
    let results = eval_with_frame(
        "(let ((f2 (make-frame)))
           (delete-frame f2)
           (length (frame-list)))",
    );
    assert_eq!(results[0], "OK 1");
}

#[test]
fn framep_true() {
    let r = eval_one_with_frame("(framep (selected-frame))");
    assert_eq!(r, "OK t");
}

#[test]
fn framep_returns_window_system_symbol_for_gui_frames() {
    let mut ui = Ui::new();
    let frame_id = ensure_selected_frame_id(&mut ui);
    let i = ui.frames.index_of(frame_id);
    ui.frames.list[i].set_parameter("window-system", Value::symbol("neomacs"));

    let result = builtin_framep(&ui.frames, &vec![Value::Frame(frame_id)]).unwrap();
    assert_eq!(result, Value::symbol("neomacs"));
}

#[test]
fn framep_false() {
    let r = eval_one_with_frame("(framep 999999)");
    assert_eq!(r, "OK nil");
}

#[test]
fn frame_live_p_true() {
    let r = eval_one_with_frame("(frame-live-p (selected-frame))");
    assert_eq!(r, "OK t");
}

#[test]
fn frame_live_p_false() {
    let r = eval_one_with_frame("(frame-live-p 999999)");
    assert_eq!(r, "OK nil");
}

#[test]
fn frame_builtins_accept_frame_handle_values() {
    let mut ui = Ui::new();
    let fid = ensure_selected_frame_id(&mut ui);

    assert_eq!(
        builtin_framep(&ui.frames, &vec![Value::Frame(fid)]).unwrap(),
        Value::True
    );
    assert_eq!(
        builtin_frame_live_p(&ui.frames, &vec![Value::Frame(fid)]).unwrap(),
        Value::True
    );
    assert_eq!(
        builtin_frame_visible_p(&ui.frames, &vec![Value::Frame(fid)]).unwrap(),
        Value::True
    );
    assert_eq!(
        builtin_select_frame(&mut ui, &vec![Value::Frame(fid)]).unwrap(),
        Value::Frame(fid)
    );
    assert_eq!(
        builtin_select_frame_set_input_focus(&mut ui, &vec![Value::Frame(fid)]).unwrap(),
        Value::Nil
    );
}

#[test]
fn frame_visible_p_requires_one_arg() {
    let r = eval_one_with_frame("(condition-case err (frame-visible-p) (error (car err)))");
    assert_eq!(r, "OK wrong-number-of-arguments");
}

#[test]
fn frame_parameter_name() {
    let r = eval_one_with_frame("(frame-parameter (selected-frame) 'name)");
    assert_eq!(r, r#"OK "F1""#);
}

#[test]
fn frame_parameter_width() {
    let r = eval_one_with_frame("(frame-parameter (selected-frame) 'width)");
    assert_eq!(r, "OK 100");
}

#[test]
fn frame_parameter_height() {
    let r = eval_one_with_frame("(frame-parameter (selected-frame) 'height)");
    assert_eq!(r, "OK 37");
}

#[test]
fn frame_parameters_returns_alist() {
    let r = eval_one_with_frame("(listp (frame-parameters))");
    assert_eq!(r, "OK t");
}

#[test]
fn modify_frame_parameters_name() {
    let results = eval_with_frame(
        "(modify-frame-parameters (selected-frame) '((name . \"NewName\")))
         (frame-parameter (selected-frame) 'name)",
    );
    assert_eq!(results[0], "OK nil");
    assert_eq!(results[1], r#"OK "NewName""#);
}

#[test]
fn modify_frame_parameters_width_height_preserve_pixel_dimensions() {
    let mut ev = Evaluator::new();
    let buf = ev.ui.buffers.create_buffer("*scratch*");
    let fid = ev.ui.frames.create_frame(Value::string("F1"), 800, 600, buf);
    let out = ev.results(&parse_forms(
        "(modify-frame-parameters (selected-frame) '((width . 80) (height . 25)))",
    ));
    assert!(
        out[0].starts_with("OK "),
        "modify-frame-parameters failed: {:?}",
        out[0]
    );

    let frame = ev.ui.frames.get(fid).expect("frame should exist");
    assert_eq!(frame.width, 800);
    assert_eq!(frame.height, 600);
    assert_eq!(frame.parameter("width"), Some(Value::Int(80)));
    assert_eq!(frame.parameter("height"), Some(Value::Int(25)));
}

#[test]
fn set_frame_size_builtins_preserve_pixel_dimensions() {
    let mut ev = Evaluator::new();
    let buf = ev.ui.buffers.create_buffer("*scratch*");
    let fid = ev.ui.frames.create_frame(Value::string("F1"), 800, 600, buf);
    let out = ev.results(&parse_forms(
        "(progn
           (set-frame-width (selected-frame) 90)
           (set-frame-height (selected-frame) 30)
           (set-frame-size (selected-frame) 100 35))",
    ));
    assert!(
        out[0].starts_with("OK "),
        "set-frame-size builtins failed: {:?}",
        out[0]
    );

    let frame = ev.ui.frames.get(fid).expect("frame should exist");
    assert_eq!(frame.width, 800);
    assert_eq!(frame.height, 600);
    assert_eq!(frame.parameter("width"), Some(Value::Int(100)));
    assert_eq!(frame.parameter("height"), Some(Value::Int(36)));
    assert_eq!(
        frame.parameter("neovm--frame-text-lines"),
        Some(Value::Int(35))
    );
}

#[test]
fn switch_to_buffer_changes_window() {
    let results = eval_with_frame(
        "(get-buffer-create \"other-buf\")
         (switch-to-buffer \"other-buf\")
         (bufferp (window-buffer))",
    );
    assert_eq!(results[2], "OK t");
}

#[test]
fn set_window_buffer_works() {
    let results = eval_with_frame(
        "(get-buffer-create \"buf2\")
         (set-window-buffer (selected-window) \"buf2\")
         (bufferp (window-buffer))",
    );
    assert_eq!(results[1], "OK nil"); // set-window-buffer returns nil
    assert_eq!(results[2], "OK t");
}

#[test]
fn set_window_buffer_restores_saved_window_point_and_keep_margins() {
    let results = eval_with_frame(
        "(setq swb-test-w (selected-window))
         (setq swb-test-b1 (get-buffer-create \"swb-state-a\"))
         (setq swb-test-b2 (get-buffer-create \"swb-state-b\"))
         (with-current-buffer swb-test-b1
           (erase-buffer)
           (insert (make-string 300 ?a))
           (goto-char 120))
         (with-current-buffer swb-test-b2
           (erase-buffer)
           (insert (make-string 300 ?b))
           (goto-char 150))
         (set-window-buffer swb-test-w swb-test-b1)
         (set-window-start swb-test-w 110)
         (set-window-point swb-test-w 120)
         (set-window-margins swb-test-w 3 4)
         (list (window-start swb-test-w)
               (window-point swb-test-w)
               (window-margins swb-test-w))
         (progn
           (set-window-buffer swb-test-w swb-test-b2)
           (list (window-start swb-test-w)
                 (window-point swb-test-w)
                 (window-margins swb-test-w)))
         (progn
           (set-window-margins swb-test-w 7 8)
           (set-window-buffer swb-test-w swb-test-b1 t)
           (list (window-start swb-test-w)
                 (window-point swb-test-w)
                 (window-margins swb-test-w)))
         (progn
           (set-window-margins swb-test-w 9 10)
           (set-window-buffer swb-test-w swb-test-b2 t)
           (list (window-start swb-test-w)
                 (window-point swb-test-w)
                 (window-margins swb-test-w)))
         (progn
           (set-window-margins swb-test-w 11 12)
           (set-window-buffer swb-test-w swb-test-b1 nil)
           (list (window-start swb-test-w)
                 (window-point swb-test-w)
                 (window-margins swb-test-w)))",
    );
    assert_eq!(results[9], "OK (110 120 (3 . 4))");
    assert_eq!(results[10], "OK (1 150 (nil))");
    assert_eq!(results[11], "OK (110 120 (7 . 8))");
    assert_eq!(results[12], "OK (1 150 (9 . 10))");
    assert_eq!(results[13], "OK (110 120 (nil))");
}

#[test]
fn set_window_buffer_there_and_back_keeps_the_first_place() {
    let results = eval_with_frame(
        "(setq tab-w (selected-window))
         (setq tab-b1 (get-buffer-create \"tab-a\"))
         (setq tab-b2 (get-buffer-create \"tab-b\"))
         (with-current-buffer tab-b1 (insert (make-string 90 ?a)))
         (with-current-buffer tab-b2 (insert (make-string 90 ?b)))
         (set-window-buffer tab-w tab-b1)
         (set-window-start tab-w 31)
         (set-window-point tab-w 47)
         (list (set-window-buffer tab-w tab-b2)
               (progn (set-window-start tab-w 5)
                      (set-window-point tab-w 9)
                      (set-window-margins tab-w 2 3)
                      (set-window-buffer tab-w \"tab-a\" t))
               (window-start tab-w)
               (window-point tab-w)
               (window-margins tab-w))
         (list (set-window-buffer tab-w tab-b2 t)
               (window-start tab-w)
               (window-point tab-w)
               (window-margins tab-w)
               (set-window-buffer tab-w tab-b1)
               (window-start tab-w)
               (window-point tab-w)
               (window-margins tab-w))",
    );
    assert_eq!(results[8], "OK (nil nil 31 47 (2 . 3))");
    assert_eq!(results[9], "OK (nil 5 9 (2 . 3) nil 31 47 (nil))");
}

#[test]
fn set_window_buffer_updates_history_lists_on_real_buffer_switches() {
    let results = eval_with_frame(
        "(let* ((w (selected-window))
                (b1 (get-buffer-create \"swb-hist-a\"))
                (b2 (get-buffer-create \"swb-hist-b\"))
                (n '((foo 1 2))))
           (with-current-buffer b1
             (erase-buffer)
             (insert (make-string 300 ?a)))
           (with-current-buffer b2
             (erase-buffer)
             (insert (make-string 300 ?b)))
           (set-window-prev-buffers w nil)
           (set-window-next-buffers w nil)
           (set-window-buffer w b1)
           (set-window-start w 7)
           (set-window-point w 11)
           (set-window-next-buffers w n)
           (set-window-buffer w b2)
           (list (null (window-next-buffers w))
                 (mapcar (lambda (e) (buffer-name (car e))) (window-prev-buffers w))
                 (mapcar (lambda (e)
                           (list (markerp (nth 1 e))
                                 (marker-position (nth 1 e))
                                 (markerp (nth 2 e))
                                 (marker-position (nth 2 e))))
                         (window-prev-buffers w))))
         (let* ((w (selected-window))
                (same (window-buffer w))
                (n '((foo 1 2)))
                (before (window-prev-buffers w)))
           (set-window-next-buffers w n)
           (set-window-buffer w same)
           (list (equal (window-prev-buffers w) before)
                 (equal (window-next-buffers w) n)))
         (let* ((w (selected-window))
                (b1 (get-buffer-create \"swb-hist-d1\"))
                (b2 (get-buffer-create \"swb-hist-d2\")))
           (set-window-prev-buffers w nil)
           (set-window-buffer w b1)
           (set-window-buffer w b2)
           (set-window-buffer w b1)
           (set-window-buffer w b2)
           (mapcar (lambda (e) (buffer-name (car e))) (window-prev-buffers w)))",
    );
    assert_eq!(
        results[0],
        "OK (t (\"swb-hist-a\" \"*scratch*\") ((t 7 t 11) (t 1 t 1)))"
    );
    assert_eq!(results[1], "OK (t t)");
    assert_eq!(
        results[2],
        "OK (\"swb-hist-d1\" \"swb-hist-d2\" \"swb-hist-b\")"
    );
}

#[test]
fn window_end_greater_than_start() {
    let r = eval_one_with_frame("(> (window-end) (window-start))");
    assert_eq!(r, "OK t");
}

#[test]
fn display_buffer_returns_window() {
    let results = startup_eval_with_frame(
        "(get-buffer-create \"disp-buf\")
         (windowp (display-buffer \"disp-buf\"))",
    );
    assert_eq!(results[1], "OK t");
}

#[test]
fn pop_to_buffer_returns_buffer() {
    let results = startup_eval_with_frame(
        "(get-buffer-create \"pop-buf\")
         (bufferp (pop-to-buffer \"pop-buf\"))",
    );
    assert_eq!(results[1], "OK t");
}

#[test]
fn switch_display_pop_bootstrap_initial_frame() {
    let out = startup_eval_with_frame(
        "(save-current-buffer (bufferp (switch-to-buffer \"*scratch*\")))
         (save-current-buffer (windowp (display-buffer \"*scratch*\")))
         (save-current-buffer (bufferp (pop-to-buffer \"*scratch*\")))",
    );
    assert_eq!(out[0], "OK t");
    assert_eq!(out[1], "OK t");
    assert_eq!(out[2], "OK t");
}

#[test]
fn switch_display_pop_enforce_max_arity() {
    let results = startup_eval_with_frame(
        "(condition-case err (switch-to-buffer \"*scratch*\" nil nil nil) (error (car err)))
         (condition-case err (display-buffer \"*scratch*\" nil nil nil) (error (car err)))
         (condition-case err (pop-to-buffer \"*scratch*\" nil nil nil) (error (car err)))
         (condition-case err (set-window-buffer (selected-window) \"*scratch*\" nil nil) (error (car err)))",
    );
    assert_eq!(results[0], "OK wrong-number-of-arguments");
    assert_eq!(results[1], "OK wrong-number-of-arguments");
    assert_eq!(results[2], "OK wrong-number-of-arguments");
    assert_eq!(results[3], "OK wrong-number-of-arguments");
}

#[test]
fn switch_display_pop_reject_non_buffer_designators() {
    let results = startup_eval_with_frame(
        "(condition-case err (switch-to-buffer 1) (error (list (car err) (nth 1 err) (nth 2 err))))
         (condition-case err (display-buffer 1) (error (list (car err) (nth 1 err) (nth 2 err))))
         (condition-case err (pop-to-buffer 1) (error (list (car err) (nth 1 err) (nth 2 err))))
         (condition-case err (set-window-buffer (selected-window) 1) (error (list (car err) (nth 1 err) (nth 2 err))))",
    );
    assert_eq!(results[0], "OK (wrong-type-argument stringp 1)");
    assert_eq!(results[1], "OK (wrong-type-argument stringp 1)");
    assert_eq!(results[2], "OK (wrong-type-argument stringp 1)");
    assert_eq!(results[3], "OK (wrong-type-argument stringp 1)");
}

#[test]
fn switch_and_pop_create_missing_named_buffers() {
    let results = startup_eval_with_frame(
        "(save-current-buffer (bufferp (switch-to-buffer \"sw-auto-create\")))
         (buffer-live-p (get-buffer \"sw-auto-create\"))
         (kill-buffer \"sw-auto-create\")
         (save-current-buffer (bufferp (pop-to-buffer \"pop-auto-create\")))
         (buffer-live-p (get-buffer \"pop-auto-create\"))
         (kill-buffer \"pop-auto-create\")",
    );
    assert_eq!(results[0], "OK t");
    assert_eq!(results[1], "OK t");
    assert_eq!(results[2], "OK t");
    assert_eq!(results[3], "OK t");
    assert_eq!(results[4], "OK t");
    assert_eq!(results[5], "OK t");
}

#[test]
fn display_buffer_missing_or_dead_signals_invalid_buffer() {
    let results = startup_eval_with_frame(
        "(condition-case err (display-buffer \"db-missing\") (error err))
         (let ((b (get-buffer-create \"db-dead\")))
           (kill-buffer b)
           (condition-case err (display-buffer b) (error err)))",
    );
    assert_eq!(results[0], "OK (error \"Invalid buffer\")");
    assert_eq!(results[1], "OK (error \"Invalid buffer\")");
}

#[test]
fn set_window_buffer_matches_window_and_buffer_designator_errors() {
    let mut ev = Evaluator::new();
    let buf = ev.ui.buffers.create_buffer("*scratch*");
    ev.ui.frames.create_frame(Value::string("F1"), 800, 600, buf);
    let dead = Value::Buffer(ev.ui.buffers.create_buffer("swb-dead"));
    ev.set_variable("vm-swb-dead", dead);
    let results = ev.results(&parse_forms(
        "(condition-case err (set-window-buffer nil \"*scratch*\") (error err))
         (condition-case err (set-window-buffer nil \"swb-missing\") (error err))
         (progn
           (kill-buffer vm-swb-dead)
           (condition-case err (set-window-buffer nil vm-swb-dead) (error err)))
         (condition-case err (set-window-buffer 999999 \"*scratch*\") (error err))
         (condition-case err (set-window-buffer 'foo \"*scratch*\") (error err))",
    ));
    assert_eq!(results[0], "OK nil");
    assert_eq!(results[1], "OK (wrong-type-argument bufferp nil)");
    assert_eq!(
        results[2],
        "OK (error \"Attempt to display deleted buffer\")"
    );
    assert_eq!(results[3], "OK (wrong-type-argument window-live-p 999999)");
    assert_eq!(results[4], "OK (wrong-type-argument window-live-p foo)");
}

#[test]
fn set_window_buffer_bootstraps_initial_frame_for_nil_window_designator() {
    let mut ev = Evaluator::new();
    let forms = parse_forms("(condition-case err
             (let ((b (get-buffer-create \"swb-bootstrap\")))
               (set-buffer b)
               (erase-buffer)
               (insert \"abcdef\")
               (goto-char 1)
               (set-window-buffer nil b)
               (list (buffer-name (window-buffer nil))
                     (window-start nil)
                     (window-end nil)))
           (error err))")
    ;
    let out = ev.results(&forms);
    assert_eq!(out[0], "OK (\"swb-bootstrap\" 1 7)");
}

#[test]
fn scroll_and_recenter_use_selected_window_state() {
    let results = eval_with_frame(
        "(let ((w (selected-window)))
           (with-current-buffer (window-buffer w)
             (erase-buffer)
             (insert \"a\nb\nc\nd\ne\nf\ng\nh\n\"))
           (set-window-point w 1)
           (list (progn (scroll-up 2) (window-point w))
                 (progn (scroll-down 1) (window-point w))
                 (progn (scroll-left 3) (window-hscroll w))
                 (progn (scroll-right 1) (window-hscroll w))
                 (progn (set-window-point w 9) (recenter 1) (window-start w))))",
    );
    assert_eq!(results[0], "OK (5 3 3 2 7)");
}

#[test]
fn resizing_sets_the_asked_sizes() {
    let mut ev = Evaluator::new();
    let out = ev.results(&parse_forms(
        "(list (selected-window)
               (split-window-internal (selected-window) nil 'right nil)
               (frame-root-window))",
    ));
    assert_eq!(out[0], "OK (#<window 1> #<window 3> #<window 4>)");
    let frame = ev.ui.frames.selected_frame().expect("frame").id;
    let args = vec![Value::Frame(frame), Value::True];
    let uneven = builtin_window_resize_apply(&mut ev.ui, &args, &vec![(1, 30), (3, 30), (4, 80)]);
    assert_eq!(uneven, Ok(Value::Nil));
    let even = builtin_window_resize_apply(&mut ev.ui, &args, &vec![(1, 30), (3, 50), (4, 80)]);
    assert_eq!(even, Ok(Value::True));
    match ev.ui.frames.find_window(frame, 3) {
        Some(Window::Leaf(l)) => {
            assert_eq!(l.bounds.x, 30);
            assert_eq!(l.bounds.width, 50);
        }
        other => panic!("expected leaf window, got {:?}", other),
    }
    let total = builtin_window_resize_apply_total(&mut ev.ui, &args, &vec![]);
    assert_eq!(total, Ok(Value::True));
}

#[test]
fn deleting_a_new_window_gives_its_room_back() {
    let out = startup_eval_with_frame(
        "(let* ((w (selected-window))
                (before (window-edges w))
                (n (split-window-internal w nil 'right nil))
                (half (window-edges w)))
           (delete-window n)
           (list before half (window-edges w) (eq (frame-root-window) w)))
         (let* ((w (selected-window))
                (n (split-window-internal w nil nil nil)))
           (list (length (window-list))
                 (window-edges w)
                 (window-edges n)
                 (eq (selected-window) w)
                 (window-live-p n)))",
    );
    assert_eq!(out[0], "OK ((0 0 80 24) (0 0 40 24) (0 0 80 24) t)");
    assert_eq!(out[1], "OK (2 (0 0 80 12) (0 12 80 24) t t)");
}

#[test]
fn previous_window_undoes_next_window() {
    let out = startup_eval_with_frame(
        "(let* ((a (selected-window))
                (b (split-window-internal a nil nil nil))
                (c (split-window-internal b nil 'right nil)))
           (list (eq (next-window a) b)
                 (eq (next-window b) c)
                 (eq (next-window c) a)
                 (eq (previous-window (next-window a)) a)
                 (eq (previous-window (next-window b)) b)
                 (eq (previous-window (next-window c)) c)))",
    );
    assert_eq!(out[0], "OK (t t t t t t)");
}

#[test]
fn the_frame_of_startup_is_made_once() {
    let mut ui = Ui::new();
    let first = ensure_selected_frame_id(&mut ui);
    let second = ensure_selected_frame_id(&mut ui);
    assert_eq!(first, second);
    assert_eq!(ui.frames.frame_list(), vec![first]);
}

#[test]
fn scrolling_stops_at_the_ends_of_the_buffer() {
    let out = eval_with_frame(
        "(let ((w (selected-window)))
           (with-current-buffer (window-buffer w)
             (erase-buffer)
             (insert \"a\nb\nc\n\"))
           (set-window-point w 1)
           (list (condition-case err (scroll-down 1) (error err))
                 (progn (scroll-up 2) (window-point w))
                 (condition-case err (scroll-up 'foo) (error err))
                 (condition-case err (scroll-left 'foo) (error err))
                 (progn (scroll-right 5) (window-hscroll w))
                 (condition-case err (recenter 1 2 3) (error err))))",
    );
    assert_eq!(out[0], "OK ((beginning-of-buffer) 5 nil 1 0 (wrong-number-of-arguments recenter 3))");
}
