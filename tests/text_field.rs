use avm2_domain::text_field::{
    append_text, get_always_show_selection, get_anti_alias_type, get_auto_size,
    get_background, get_background_color, get_border, get_border_color, get_bottom_scroll_v,
    get_caret_index, get_condense_white, get_default_text_format, get_display_as_password,
    get_embed_fonts, get_grid_fit_type, get_html_text, get_length, get_max_chars,
    get_max_scroll_h, get_max_scroll_v, get_mouse_wheel_enabled, get_multiline, get_num_lines,
    get_restrict, get_scroll_h, get_scroll_v, get_selectable, get_selection_begin_index,
    get_selection_end_index, get_text, get_text_color, get_text_format, get_type,
    get_word_wrap, replace_selected_text, replace_text, set_always_show_selection,
    set_anti_alias_type, set_auto_size, set_background, set_background_color, set_border,
    set_border_color, set_condense_white, set_default_text_format, set_display_as_password,
    set_embed_fonts, set_grid_fit_type, set_html_text, set_max_chars, set_mouse_wheel_enabled,
    set_multiline, set_restrict, set_scroll_h, set_scroll_v, set_selectable, set_selection,
    set_text, set_text_color, set_text_format, set_type, set_word_wrap,
};
use avm2_domain::value::{coerce_to_boolean, coerce_to_i32, coerce_to_string, coerce_to_u32};
use avm2_domain::{
    AutoSizeMode, EditText, Error, GridFit, Object, Rgba, TextFormat, TextSelection, Value,
};

fn field() -> Object {
    Object::EditText(EditText::new())
}

fn s(text: &str) -> Value {
    Value::String(text.to_string())
}

fn text_of(r: Result<Value, Error>) -> String {
    match r {
        Ok(Value::String(t)) => t,
        _ => panic!("expected a string"),
    }
}

fn int_of(r: Result<Value, Error>) -> i32 {
    match r {
        Ok(Value::Integer(n)) => n,
        _ => panic!("expected an integer"),
    }
}

fn bool_of(r: Result<Value, Error>) -> bool {
    match r {
        Ok(Value::Bool(b)) => b,
        _ => panic!("expected a boolean"),
    }
}

fn edit(o: &Object) -> &EditText {
    match o {
        Object::EditText(t) => t,
        Object::Other => panic!("not a text field"),
    }
}

#[test]
fn getters_on_other_objects_are_undefined() {
    let o = Object::Other;
    assert!(matches!(get_text(&o, &[]), Ok(Value::Undefined)));
    assert!(matches!(get_background(&o, &[]), Ok(Value::Undefined)));
    assert!(matches!(get_auto_size(&o, &[]), Ok(Value::Undefined)));
    assert!(matches!(get_length(&o, &[]), Ok(Value::Undefined)));
    let mut o = Object::Other;
    assert!(matches!(set_type(&mut o, &[s("bogus")]), Ok(Value::Undefined)));
    assert!(matches!(set_background(&mut o, &[Value::Bool(true)]), Ok(Value::Undefined)));
}

#[test]
fn stubs() {
    let mut o = field();
    assert!(!bool_of(get_always_show_selection(&o, &[])));
    assert!(!bool_of(get_condense_white(&o, &[])));
    assert!(bool_of(get_mouse_wheel_enabled(&o, &[])));
    assert!(matches!(get_restrict(&o, &[]), Ok(Value::Null)));
    assert!(matches!(set_always_show_selection(&mut o, &[Value::Bool(true)]), Ok(Value::Undefined)));
    assert!(matches!(set_condense_white(&mut o, &[Value::Bool(true)]), Ok(Value::Undefined)));
    assert!(matches!(set_mouse_wheel_enabled(&mut o, &[Value::Bool(false)]), Ok(Value::Undefined)));
    assert!(matches!(set_restrict(&mut o, &[s("a-z")]), Ok(Value::Undefined)));
}

#[test]
fn auto_size_round_trip() {
    let mut o = field();
    assert_eq!(text_of(get_auto_size(&o, &[])), "none");
    for name in ["left", "center", "right"] {
        set_auto_size(&mut o, &[s(name)]).unwrap();
        assert_eq!(text_of(get_auto_size(&o, &[])), name);
    }
    set_auto_size(&mut o, &[s("sideways")]).unwrap();
    assert_eq!(edit(&o).autosize, AutoSizeMode::Off);
}

#[test]
fn boolean_properties() {
    let mut o = field();
    set_background(&mut o, &[Value::Bool(true)]).unwrap();
    assert!(bool_of(get_background(&o, &[])));
    set_border(&mut o, &[Value::Integer(2)]).unwrap();
    assert!(bool_of(get_border(&o, &[])));
    set_display_as_password(&mut o, &[s("yes")]).unwrap();
    assert!(bool_of(get_display_as_password(&o, &[])));
    set_multiline(&mut o, &[Value::Bool(true)]).unwrap();
    assert!(bool_of(get_multiline(&o, &[])));
    set_selectable(&mut o, &[Value::Bool(false)]).unwrap();
    assert!(!bool_of(get_selectable(&o, &[])));
    set_word_wrap(&mut o, &[]).unwrap();
    assert!(!bool_of(get_word_wrap(&o, &[])));
    assert!(!bool_of(get_embed_fonts(&o, &[])));
    set_embed_fonts(&mut o, &[Value::Bool(true)]).unwrap();
    assert!(bool_of(get_embed_fonts(&o, &[])));
    assert!(!edit(&o).is_device_font);
}

#[test]
fn colors_go_through_packed_rgb() {
    let mut o = field();
    assert_eq!(int_of(get_background_color(&o, &[])), 0xFFFFFF);
    set_background_color(&mut o, &[Value::Integer(0x1234_5678)]).unwrap();
    assert_eq!(edit(&o).background_color, Rgba { r: 0x34, g: 0x56, b: 0x78, a: 255 });
    assert_eq!(int_of(get_background_color(&o, &[])), 0x345678);
    set_border_color(&mut o, &[s("255")]).unwrap();
    assert_eq!(int_of(get_border_color(&o, &[])), 0xFF);
    set_border_color(&mut o, &[Value::Integer(-1)]).unwrap();
    assert_eq!(int_of(get_border_color(&o, &[])), 0xFFFFFF);
}

#[test]
fn text_color_applies_to_all_characters() {
    let mut o = field();
    set_text(&mut o, &[s("abc")]).unwrap();
    set_text_color(&mut o, &[Value::Integer(0x00FF00)]).unwrap();
    assert_eq!(int_of(get_text_color(&o, &[])), 0x00FF00);
    let green = Rgba { r: 0, g: 0xFF, b: 0, a: 255 };
    for f in &edit(&o).formats {
        assert_eq!(f.color, Some(green));
        assert_eq!(f.bold, Some(false));
    }
    assert_eq!(
        edit(&o).new_text_format,
        TextFormat { color: Some(green), bold: None, italic: None, underline: None }
    );
}

#[test]
fn text_and_length() {
    let mut o = field();
    set_text(&mut o, &[s("hello")]).unwrap();
    assert_eq!(text_of(get_text(&o, &[])), "hello");
    assert_eq!(int_of(get_length(&o, &[])), 5);
    assert!(!edit(&o).is_html);
    set_text(&mut o, &[Value::Integer(-42)]).unwrap();
    assert_eq!(text_of(get_text(&o, &[])), "-42");
    set_html_text(&mut o, &[s("<b>x</b>")]).unwrap();
    assert_eq!(text_of(get_html_text(&o, &[])), "<b>x</b>");
    assert!(edit(&o).is_html);
}

#[test]
fn type_input_and_dynamic() {
    let mut o = field();
    assert_eq!(text_of(get_type(&o, &[])), "dynamic");
    set_type(&mut o, &[s("input")]).unwrap();
    assert_eq!(text_of(get_type(&o, &[])), "input");
    set_type(&mut o, &[s("dynamic")]).unwrap();
    assert_eq!(text_of(get_type(&o, &[])), "dynamic");
    match set_type(&mut o, &[s("static")]) {
        Err(Error::InvalidTextFieldType(t)) => assert_eq!(t, "static"),
        _ => panic!("expected an error"),
    }
}

#[test]
fn replacing_text() {
    let mut o = field();
    set_text(&mut o, &[s("hello world")]).unwrap();
    replace_text(&mut o, &[Value::Integer(0), Value::Integer(5), s("HELLO")]).unwrap();
    assert_eq!(text_of(get_text(&o, &[])), "HELLO world");
    replace_text(&mut o, &[Value::Integer(6), Value::Integer(100), s("there")]).unwrap();
    assert_eq!(text_of(get_text(&o, &[])), "HELLO there");
    append_text(&mut o, &[s("!")]).unwrap();
    assert_eq!(text_of(get_text(&o, &[])), "HELLO there!");
    assert_eq!(edit(&o).formats.len(), 12);
    replace_selected_text(&mut o, &[s(">")]).unwrap();
    assert_eq!(text_of(get_text(&o, &[])), ">HELLO there!");
    set_selection(&mut o, &[Value::Integer(1), Value::Integer(6)]).unwrap();
    replace_selected_text(&mut o, &[s("hi")]).unwrap();
    assert_eq!(text_of(get_text(&o, &[])), ">hi there!");
}

#[test]
fn selection_is_held_inside_text() {
    let mut o = field();
    assert_eq!(int_of(get_caret_index(&o, &[])), 0);
    set_text(&mut o, &[s("abcdef")]).unwrap();
    set_selection(&mut o, &[Value::Integer(4), Value::Integer(2)]).unwrap();
    assert_eq!(int_of(get_selection_begin_index(&o, &[])), 2);
    assert_eq!(int_of(get_selection_end_index(&o, &[])), 4);
    assert_eq!(int_of(get_caret_index(&o, &[])), 2);
    set_selection(&mut o, &[Value::Integer(1), Value::Integer(99)]).unwrap();
    assert_eq!(edit(&o).selection, Some(TextSelection { from: 1, to: 6 }));
    set_text(&mut o, &[s("ab")]).unwrap();
    assert_eq!(edit(&o).selection, Some(TextSelection { from: 1, to: 2 }));
}

#[test]
fn text_formats_over_ranges() {
    let mut o = field();
    set_text(&mut o, &[s("abcd")]).unwrap();
    let bold = TextFormat { color: None, bold: Some(true), italic: None, underline: None };
    set_text_format(&mut o, &[Value::TextFormat(bold), Value::Integer(1), Value::Integer(3)]).unwrap();
    let fs = &edit(&o).formats;
    assert_eq!(fs[0].bold, Some(false));
    assert_eq!(fs[1].bold, Some(true));
    assert_eq!(fs[2].bold, Some(true));
    assert_eq!(fs[3].bold, Some(false));
    match get_text_format(&o, &[Value::Integer(1), Value::Integer(3)]) {
        Ok(Value::TextFormat(f)) => {
            assert_eq!(f.bold, Some(true));
            assert_eq!(f.italic, Some(false));
        }
        _ => panic!("expected a text format"),
    }
    match get_text_format(&o, &[]) {
        Ok(Value::TextFormat(f)) => {
            assert_eq!(f.bold, None);
            assert_eq!(f.color, Some(Rgba { r: 0, g: 0, b: 0, a: 255 }));
        }
        _ => panic!("expected a text format"),
    }
    assert!(matches!(
        set_text_format(&mut o, &[Value::TextFormat(bold), Value::Integer(5)]),
        Err(Error::Range)
    ));
    assert!(matches!(
        set_text_format(&mut o, &[Value::TextFormat(bold), Value::Integer(0), Value::Integer(9)]),
        Err(Error::Range)
    ));
    assert!(matches!(set_text_format(&mut o, &[Value::Integer(3)]), Ok(Value::Undefined)));
    set_text_format(&mut o, &[Value::TextFormat(bold)]).unwrap();
    assert!(edit(&o).formats.iter().all(|f| f.bold == Some(true)));
}

#[test]
fn default_text_format() {
    let mut o = field();
    let f = TextFormat { color: None, bold: None, italic: Some(true), underline: None };
    set_default_text_format(&mut o, &[Value::TextFormat(f)]).unwrap();
    assert!(matches!(get_default_text_format(&o, &[]), Ok(Value::TextFormat(g)) if g == f));
    set_default_text_format(&mut o, &[Value::Integer(1)]).unwrap();
    assert!(matches!(get_default_text_format(&o, &[]), Ok(Value::TextFormat(g)) if g == f));
    set_text(&mut o, &[s("xy")]).unwrap();
    assert_eq!(edit(&o).formats, vec![f, f]);
    assert_eq!(int_of(get_text_color(&o, &[])), 0);
}

#[test]
fn rendering_settings() {
    let mut o = field();
    assert_eq!(text_of(get_anti_alias_type(&o, &[])), "normal");
    set_anti_alias_type(&mut o, &[s("advanced")]).unwrap();
    assert_eq!(text_of(get_anti_alias_type(&o, &[])), "advanced");
    set_anti_alias_type(&mut o, &[s("other")]).unwrap();
    assert_eq!(text_of(get_anti_alias_type(&o, &[])), "advanced");
    assert_eq!(text_of(get_grid_fit_type(&o, &[])), "none");
    set_grid_fit_type(&mut o, &[s("subpixel")]).unwrap();
    assert_eq!(text_of(get_grid_fit_type(&o, &[])), "subpixel");
    set_grid_fit_type(&mut o, &[s("pixel")]).unwrap();
    assert_eq!(edit(&o).grid_fit, GridFit::Pixel);
    set_grid_fit_type(&mut o, &[s("junk")]).unwrap();
    assert_eq!(text_of(get_grid_fit_type(&o, &[])), "none");
}

#[test]
fn scrolling_and_limits() {
    let mut o = field();
    if let Object::EditText(t) = &mut o {
        t.max_hscroll = 30;
        t.max_scroll = 4;
        t.bottom_scroll = 2;
        t.num_lines = 5;
    }
    set_scroll_h(&mut o, &[Value::Integer(50)]).unwrap();
    assert_eq!(int_of(get_scroll_h(&o, &[])), 30);
    set_scroll_h(&mut o, &[Value::Integer(-5)]).unwrap();
    assert_eq!(int_of(get_scroll_h(&o, &[])), 0);
    set_scroll_h(&mut o, &[Value::Integer(12)]).unwrap();
    assert_eq!(int_of(get_scroll_h(&o, &[])), 12);
    assert_eq!(int_of(get_max_scroll_h(&o, &[])), 30);
    set_scroll_v(&mut o, &[s("3")]).unwrap();
    assert_eq!(int_of(get_scroll_v(&o, &[])), 3);
    assert_eq!(int_of(get_max_scroll_v(&o, &[])), 4);
    assert_eq!(int_of(get_bottom_scroll_v(&o, &[])), 2);
    assert_eq!(int_of(get_num_lines(&o, &[])), 5);
    set_max_chars(&mut o, &[Value::Integer(10)]).unwrap();
    assert_eq!(int_of(get_max_chars(&o, &[])), 10);
    set_max_chars(&mut o, &[s("4294967295")]).unwrap();
    assert_eq!(int_of(get_max_chars(&o, &[])), -1);
}

#[test]
fn value_coercions() {
    assert_eq!(coerce_to_string(&Value::Integer(i32::MIN)), "-2147483648");
    assert_eq!(coerce_to_string(&Value::Integer(0)), "0");
    assert_eq!(coerce_to_string(&Value::Integer(1234)), "1234");
    assert_eq!(coerce_to_string(&Value::Undefined), "undefined");
    assert_eq!(coerce_to_string(&Value::Null), "null");
    assert_eq!(coerce_to_string(&Value::Bool(true)), "true");
    assert_eq!(coerce_to_u32(&s("-1")), 4294967295);
    assert_eq!(coerce_to_u32(&s("+7")), 7);
    assert_eq!(coerce_to_u32(&s("12a")), 0);
    assert_eq!(coerce_to_u32(&s("")), 0);
    assert_eq!(coerce_to_u32(&s("-")), 0);
    assert_eq!(coerce_to_u32(&s("4294967297")), 1);
    assert_eq!(coerce_to_u32(&Value::Integer(-2)), 4294967294);
    assert_eq!(coerce_to_i32(&s("2147483648")), -2147483648);
    assert_eq!(coerce_to_i32(&Value::Bool(true)), 1);
    assert_eq!(coerce_to_i32(&Value::Undefined), 0);
    assert!(!coerce_to_boolean(&s("")));
    assert!(coerce_to_boolean(&s("0")));
    assert!(!coerce_to_boolean(&Value::Integer(0)));
    assert!(!coerce_to_boolean(&Value::Null));
}
