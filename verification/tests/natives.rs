use avm_core::config::Letterbox;
use avm_core::error::Error;
use avm_core::globals::capabilities;
use avm_core::globals::class as class_globals;
use avm_core::globals::loader_info;
use avm_core::globals::text_field;
use avm_core::globals::text_field::AutoSizeValue;
use avm_core::globals::text_field::Color;
use avm_core::globals::text_field::EditText;
use avm_core::globals::void;
use avm_core::interner::Interner;
use avm_core::loader::ContentType;
use avm_core::loader::JpegTagFormat;
use avm_core::loader::UnexpectedData;
use avm_core::loaderinfo_object::DisplayRoot;
use avm_core::loaderinfo_object::LoadProgress;
use avm_core::loaderinfo_object::LoaderEvent;
use avm_core::loaderinfo_object::LoaderInfoObject;
use avm_core::loaderinfo_object::LoaderStream;
use avm_core::loaderinfo_object::SwfMovie;
use avm_core::navigator::create_fetch_error;
use avm_core::navigator::create_specific_fetch_error;
use avm_core::navigator::NavigationMethod;
use avm_core::navigator::SendVarsMethod;
use avm_core::strings::eq_ignore_ascii_case;
use avm_core::strings::str_eq;
use avm_core::strings::to_decimal;
use avm_core::value::Value;

#[test]
fn decimal_digits_are_exact() {
    assert_eq!(to_decimal(0), "0");
    assert_eq!(to_decimal(7), "7");
    assert_eq!(to_decimal(10), "10");
    assert_eq!(to_decimal(1234567890), "1234567890");
    assert_eq!(to_decimal(u64::MAX), "18446744073709551615");
}

#[test]
fn ascii_case_is_ignored_on_request() {
    assert!(eq_ignore_ascii_case("InPuT", "input"));
    assert!(eq_ignore_ascii_case("", ""));
    assert!(!eq_ignore_ascii_case("input", "inputs"));
    assert!(!eq_ignore_ascii_case("input", "inpuT "));
    assert!(!eq_ignore_ascii_case("[", "{"));
    assert!(!eq_ignore_ascii_case("@", "`"));
    assert!(!eq_ignore_ascii_case("É", "é"));
    assert!(str_eq("a", "a"));
    assert!(!str_eq("a", "A"));
}

#[test]
fn navigation_methods_are_named_in_any_case() {
    assert_eq!(NavigationMethod::from_method_str("get"), Some(NavigationMethod::Get));
    assert_eq!(NavigationMethod::from_method_str("GET"), Some(NavigationMethod::Get));
    assert_eq!(NavigationMethod::from_method_str("PoSt"), Some(NavigationMethod::Post));
    assert_eq!(NavigationMethod::from_method_str("put"), None);
    assert_eq!(NavigationMethod::from_method_str(""), None);
    assert_eq!(NavigationMethod::from_send_vars_method(SendVarsMethod::Nothing), None);
    assert_eq!(NavigationMethod::from_send_vars_method(SendVarsMethod::Get), Some(NavigationMethod::Get));
    assert_eq!(NavigationMethod::from_send_vars_method(SendVarsMethod::Post), Some(NavigationMethod::Post));
    assert_eq!(NavigationMethod::Get.as_str(), "GET");
    assert_eq!(NavigationMethod::Post.as_str(), "POST");
}

#[test]
fn fetch_errors_name_reason_and_url() {
    let plain = create_specific_fetch_error("Can't open file", "file:///a.swf", "").unwrap_err();
    assert_eq!(plain.message, "Can't open file file:///a.swf");
    assert_eq!(plain.url, "file:///a.swf");
    let detailed = create_specific_fetch_error("Can't open file", "file:///a.swf", "not found").unwrap_err();
    assert_eq!(detailed.message, "Can't open file file:///a.swf: not found");
    let invalid = create_fetch_error("::", "empty host").unwrap_err();
    assert_eq!(invalid.message, "Invalid URL ::: empty host");
}

#[test]
fn content_types_are_named_and_expected() {
    assert_eq!(ContentType::from_jpeg_tag_format(JpegTagFormat::Jpeg), ContentType::Jpeg);
    assert_eq!(ContentType::from_jpeg_tag_format(JpegTagFormat::Png), ContentType::Png);
    assert_eq!(ContentType::from_jpeg_tag_format(JpegTagFormat::Gif), ContentType::Gif);
    assert_eq!(ContentType::from_jpeg_tag_format(JpegTagFormat::Unknown), ContentType::Unknown);
    assert_eq!(ContentType::Swf.name(), "SWF");
    assert_eq!(ContentType::Jpeg.name(), "JPEG");
    assert_eq!(ContentType::Png.name(), "PNG");
    assert_eq!(ContentType::Gif.name(), "GIF");
    assert_eq!(ContentType::Unknown.name(), "Unknown");
    assert_eq!(ContentType::Swf.expect(ContentType::Swf), Ok(ContentType::Swf));
    assert_eq!(
        ContentType::Png.expect(ContentType::Swf),
        Err(UnexpectedData { expected: ContentType::Swf, found: ContentType::Png })
    );
    assert!(Letterbox::On.applies(false));
    assert!(!Letterbox::Off.applies(true));
    assert!(Letterbox::Fullscreen.applies(true));
    assert!(!Letterbox::Fullscreen.applies(false));
}

#[test]
fn capabilities_are_fixed() {
    assert_eq!(capabilities::get_version(32), "LNX 32,0,0,0");
    assert_eq!(capabilities::get_version(0), "LNX 0,0,0,0");
    assert_eq!(capabilities::get_version(255), "LNX 255,0,0,0");
    assert_eq!(capabilities::get_player_type(true), "PlugIn");
    assert_eq!(capabilities::get_player_type(false), "StandAlone");
    assert_eq!(capabilities::get_pixel_aspect_ratio(), Value::Integer(1));
    assert_eq!(capabilities::get_screen_dpi(), Value::Integer(72));
}

#[test]
fn classes_cannot_be_constructed_by_scripts() {
    assert_eq!(class_globals::instance_init(), Err(Error::ClassesCannotBeConstructed));
    assert_eq!(class_globals::class_init(), Ok(Value::Undefined));
    assert_eq!(void::void_init(), Ok(Value::Undefined));
    let mut interner = Interner::new();
    let void_class = void::create_class(&mut interner, 9);
    assert_eq!(interner.get(void_class.name().local_name()), "void");
    assert!(void_class.super_class.is_none());
    assert!(void_class.name().namespace().is_public());
}

fn movie() -> SwfMovie {
    SwfMovie {
        is_action_script_3: true,
        compressed_len: 1000,
        version: 15,
        url: 5,
        loader_url: None,
        avm2_domain: Some(8),
    }
}

fn root(loaded: u32, total: i32) -> DisplayRoot {
    DisplayRoot {
        object2: Value::Object(3),
        movie_clip: Some(LoadProgress { compressed_loaded_bytes: loaded / 2, loaded_bytes: loaded, total_bytes: total }),
    }
}

#[test]
fn a_loaded_movie_answers_every_question() {
    let info = LoaderInfoObject::from_movie(movie(), root(400, 400), Some(2), 10, 11);
    let this = Some(&info);
    let mut interner = Interner::new();
    assert_eq!(loader_info::get_action_script_version(this), Ok(Value::Integer(3)));
    assert_eq!(loader_info::get_application_domain(this), Ok(Value::Object(8)));
    assert_eq!(loader_info::get_bytes_total(this), Ok(Value::Unsigned(1000)));
    assert_eq!(loader_info::get_bytes_loaded(this), Ok(Value::Unsigned(200)));
    assert_eq!(loader_info::get_content(this), Ok(Value::Object(3)));
    match loader_info::get_content_type(this, &mut interner) {
        Ok(Value::String(a)) => assert_eq!(interner.get(a), "application/x-shockwave-flash"),
        other => panic!("expected a string, got {:?}", other),
    }
    assert_eq!(loader_info::get_is_url_inaccessible(), Ok(Value::Bool(false)));
    assert_eq!(loader_info::get_same_domain(this), Ok(Value::Bool(false)));
    assert_eq!(loader_info::get_child_allows_parent(this), Ok(Value::Bool(false)));
    assert_eq!(loader_info::get_parent_allows_child(this), Ok(Value::Bool(false)));
    assert_eq!(loader_info::get_swf_version(this), Ok(Value::Integer(15)));
    assert_eq!(loader_info::get_url(this), Ok(Value::String(5)));
    assert_eq!(loader_info::get_loader_url(this), Ok(Value::String(5)));
    assert_eq!(loader_info::get_loader(this), Ok(Value::Object(2)));
    assert_eq!(loader_info::get_shared_events(this), Ok(Value::Object(10)));
    assert_eq!(loader_info::get_uncaught_error_events(this), Ok(Value::Object(11)));
    let mut old = movie();
    old.is_action_script_3 = false;
    old.loader_url = Some(6);
    let info = LoaderInfoObject::from_movie(old, DisplayRoot { object2: Value::Null, movie_clip: None }, None, 10, 11);
    assert_eq!(loader_info::get_action_script_version(Some(&info)), Ok(Value::Integer(2)));
    assert_eq!(loader_info::get_loader_url(Some(&info)), Ok(Value::String(6)));
    assert_eq!(loader_info::get_bytes_loaded(Some(&info)), Ok(Value::Unsigned(0)));
    assert_eq!(loader_info::get_loader(Some(&info)), Ok(Value::Null));
}

#[test]
fn a_movie_that_has_not_loaded_withholds_some_answers() {
    let info = LoaderInfoObject::not_yet_loaded(movie(), None, None, false, 10, 11);
    let this = Some(&info);
    let mut interner = Interner::new();
    let insufficient = loader_info::get_action_script_version(this);
    assert_eq!(insufficient, Err(Error::NotSufficientlyLoaded));
    assert_eq!(insufficient.unwrap_err().code(), Some(2099));
    assert_eq!(loader_info::get_swf_version(this), Err(Error::NotSufficientlyLoaded));
    assert_eq!(loader_info::get_same_domain(this), Err(Error::NotSufficientlyLoaded));
    assert_eq!(loader_info::get_child_allows_parent(this), Err(Error::NotSufficientlyLoaded));
    assert_eq!(loader_info::get_parent_allows_child(this), Err(Error::NotSufficientlyLoaded));
    assert_eq!(loader_info::get_content_type(this, &mut interner), Ok(Value::Null));
    assert_eq!(loader_info::get_bytes_loaded(this), Ok(Value::Unsigned(0)));
    assert_eq!(loader_info::get_bytes_total(this), Ok(Value::Unsigned(1000)));
    assert_eq!(loader_info::get_content(this), Ok(Value::Null));
    assert_eq!(loader_info::get_url(this), Ok(Value::Null));
    assert_eq!(loader_info::get_application_domain(this), Ok(Value::Object(8)));
    let stage = LoaderInfoObject::not_yet_loaded(movie(), None, Some(root(10, 400)), true, 10, 11);
    assert_eq!(loader_info::get_url(Some(&stage)), Ok(Value::String(5)));
    assert_eq!(loader_info::get_bytes_loaded(Some(&stage)), Ok(Value::Unsigned(5)));
    assert_eq!(loader_info::get_content(Some(&stage)), Ok(Value::Object(3)));
    let mut homeless = movie();
    homeless.avm2_domain = None;
    let info = LoaderInfoObject::not_yet_loaded(homeless, None, None, false, 10, 11);
    assert_eq!(loader_info::get_application_domain(Some(&info)), Ok(Value::Null));
}

#[test]
fn a_receiver_that_is_no_loader_info_reads_as_undefined() {
    let mut interner = Interner::new();
    assert_eq!(loader_info::get_action_script_version(None), Ok(Value::Undefined));
    assert_eq!(loader_info::get_application_domain(None), Ok(Value::Undefined));
    assert_eq!(loader_info::get_bytes_loaded(None), Ok(Value::Undefined));
    assert_eq!(loader_info::get_bytes_total(None), Ok(Value::Undefined));
    assert_eq!(loader_info::get_content(None), Ok(Value::Undefined));
    assert_eq!(loader_info::get_content_type(None, &mut interner), Ok(Value::Undefined));
    assert_eq!(loader_info::get_same_domain(None), Ok(Value::Undefined));
    assert_eq!(loader_info::get_swf_version(None), Ok(Value::Undefined));
    assert_eq!(loader_info::get_url(None), Ok(Value::Undefined));
    assert_eq!(loader_info::get_loader_url(None), Ok(Value::Undefined));
    assert_eq!(loader_info::get_loader(None), Ok(Value::Undefined));
    assert_eq!(loader_info::get_shared_events(None), Ok(Value::Undefined));
    assert_eq!(loader_info::get_uncaught_error_events(None), Ok(Value::Undefined));
    let mut emptied = LoaderInfoObject::from_movie(movie(), root(1, 1), None, 10, 11);
    emptied.loaded_stream = None;
    assert_eq!(loader_info::get_url(Some(&emptied)), Ok(Value::Undefined));
    assert_eq!(loader_info::get_loader(Some(&emptied)), Ok(Value::Null));
}

#[test]
fn init_and_complete_fire_once() {
    let mut info = LoaderInfoObject::from_movie(movie(), root(100, 400), None, 10, 11);
    assert_eq!(info.fire_init_and_complete_events(200, false), vec![LoaderEvent::Init]);
    assert_eq!(info.fire_init_and_complete_events(200, false), Vec::new());
    info.set_loader_stream(LoaderStream::Swf(movie(), root(400, 400)));
    assert_eq!(
        info.fire_init_and_complete_events(200, true),
        vec![LoaderEvent::HttpStatus { status: 200, redirected: true }, LoaderEvent::Complete]
    );
    assert_eq!(info.fire_init_and_complete_events(200, true), Vec::new());
    let mut fresh = LoaderInfoObject::from_movie(movie(), DisplayRoot { object2: Value::Null, movie_clip: None }, None, 10, 11);
    assert_eq!(
        fresh.fire_init_and_complete_events(404, false),
        vec![LoaderEvent::Init, LoaderEvent::HttpStatus { status: 404, redirected: false }, LoaderEvent::Complete]
    );
    let mut pending = LoaderInfoObject::not_yet_loaded(movie(), None, None, false, 10, 11);
    assert_eq!(pending.fire_init_and_complete_events(0, false), vec![LoaderEvent::Init]);
    assert_eq!(pending.fire_init_and_complete_events(0, false), Vec::new());
    pending.unload(movie());
    assert_eq!(pending.as_loader_stream(), Some(LoaderStream::NotYetLoaded(movie(), None, false)));
    assert_eq!(pending.loader(), None);
    assert_eq!(pending.shared_events(), 10);
    assert_eq!(pending.uncaught_error_events(), 11);
}

#[test]
fn colors_keep_their_lowest_three_bytes() {
    let color = Color::from_rgb(0x12345678, 255);
    assert_eq!(color, Color { r: 0x34, g: 0x56, b: 0x78, a: 255 });
    assert_eq!(color.to_rgb(), 0x345678);
    assert_eq!(Color::from_rgb(0xffffff, 0).to_rgb(), 0xffffff);
    assert_eq!(Color::from_rgb(0, 0).to_rgb(), 0);
}

#[test]
fn text_field_flags_read_back() {
    let mut field = EditText::new();
    assert_eq!(text_field::constructor(4), Value::Object(4));
    assert!(!text_field::password(&field));
    text_field::set_password(&mut field, true);
    assert!(text_field::password(&field));
    text_field::set_html(&mut field, true);
    assert!(text_field::html(&field));
    text_field::set_background(&mut field, true);
    assert!(text_field::background(&field));
    text_field::set_border(&mut field, true);
    assert!(text_field::border(&field));
    assert!(text_field::embed_fonts(&field));
    text_field::set_embed_fonts(&mut field, false);
    assert!(!text_field::embed_fonts(&field));
    assert!(field.is_device_font);
    text_field::set_multiline(&mut field, true);
    assert!(text_field::multiline(&field));
    assert!(text_field::selectable(&field));
    text_field::set_selectable(&mut field, false);
    assert!(!text_field::selectable(&field));
    text_field::set_word_wrap(&mut field, true);
    assert!(text_field::word_wrap(&field));
    assert!(text_field::password(&field));
}

#[test]
fn text_field_text_and_colors() {
    let mut field = EditText::new();
    assert_eq!(text_field::length(&field), 0);
    assert!(!text_field::set_text(&mut field, "héllo"));
    assert_eq!(text_field::text(&field), "héllo");
    assert_eq!(text_field::length(&field), 5);
    assert_eq!(text_field::variable(&field), None);
    text_field::set_variable(&mut field, Some(String::from("score")));
    assert_eq!(text_field::variable(&field), Some(String::from("score")));
    assert!(text_field::set_text(&mut field, "12"));
    assert_eq!(text_field::text_color(&field), None);
    text_field::set_text_color(&mut field, 0xff00ff80);
    assert_eq!(text_field::text_color(&field), Some(0x00ff80));
    assert_eq!(field.text_format.color, Some(Color { r: 0, g: 0xff, b: 0x80, a: 0 }));
    assert_eq!(text_field::background_color(&field), 0xffffff);
    text_field::set_background_color(&mut field, 0x102030);
    assert_eq!(text_field::background_color(&field), 0x102030);
    assert_eq!(field.background_color.a, 255);
    assert_eq!(text_field::border_color(&field), 0);
    text_field::set_border_color(&mut field, 0xaabbcc);
    assert_eq!(text_field::border_color(&field), 0xaabbcc);
}

#[test]
fn text_field_modes_are_named() {
    let mut field = EditText::new();
    assert_eq!(text_field::auto_size(&field), "none");
    text_field::set_auto_size(&mut field, &AutoSizeValue::Text(String::from("LEFT")));
    assert_eq!(text_field::auto_size(&field), "left");
    text_field::set_auto_size(&mut field, &AutoSizeValue::Text(String::from("Center")));
    assert_eq!(text_field::auto_size(&field), "center");
    text_field::set_auto_size(&mut field, &AutoSizeValue::Text(String::from("right")));
    assert_eq!(text_field::auto_size(&field), "right");
    text_field::set_auto_size(&mut field, &AutoSizeValue::Text(String::from("top")));
    assert_eq!(text_field::auto_size(&field), "none");
    text_field::set_auto_size(&mut field, &AutoSizeValue::Flag(true));
    assert_eq!(text_field::auto_size(&field), "left");
    text_field::set_auto_size(&mut field, &AutoSizeValue::Flag(false));
    assert_eq!(text_field::auto_size(&field), "none");
    text_field::set_auto_size(&mut field, &AutoSizeValue::Flag(true));
    text_field::set_auto_size(&mut field, &AutoSizeValue::Other);
    assert_eq!(text_field::auto_size(&field), "none");

    assert_eq!(text_field::get_type(&field), "dynamic");
    assert!(text_field::set_type(&mut field, "INPUT"));
    assert_eq!(text_field::get_type(&field), "input");
    assert!(!text_field::set_type(&mut field, "static"));
    assert_eq!(text_field::get_type(&field), "input");
    assert!(text_field::set_type(&mut field, "Dynamic"));
    assert_eq!(text_field::get_type(&field), "dynamic");

    assert_eq!(text_field::anti_alias_type(&field), "normal");
    text_field::set_anti_alias_type(&mut field, "advanced");
    assert_eq!(text_field::anti_alias_type(&field), "advanced");
    text_field::set_anti_alias_type(&mut field, "Normal");
    assert_eq!(text_field::anti_alias_type(&field), "advanced");
    text_field::set_anti_alias_type(&mut field, "normal");
    assert_eq!(text_field::anti_alias_type(&field), "normal");
}

#[test]
fn grid_fitting_is_named_exactly() {
    let mut field = EditText::new();
    assert_eq!(text_field::grid_fit_type(&field), "pixel");
    text_field::set_grid_fit_type(&mut field, "subpixel");
    assert_eq!(text_field::grid_fit_type(&field), "subpixel");
    text_field::set_grid_fit_type(&mut field, "NONE");
    assert_eq!(text_field::grid_fit_type(&field), "subpixel");
    text_field::set_grid_fit_type(&mut field, "none");
    assert_eq!(text_field::grid_fit_type(&field), "none");
    text_field::set_grid_fit_type(&mut field, "pixel");
    assert_eq!(text_field::grid_fit_type(&field), "pixel");
    text_field::set_anti_alias_type(&mut field, "advanced");
    assert_eq!(text_field::grid_fit_type(&field), "pixel");
}

#[test]
fn movie_parameters_become_properties() {
    let mut rt = avm_core::runtime::Runtime::new();
    let info = LoaderInfoObject::from_movie(movie(), root(1, 1), None, 10, 11);
    let names: Vec<usize> = ["quality", "level", "hard", "2"].iter().map(|s| rt.interner.intern(s)).collect();
    let parameters = vec![
        loader_info::Parameter { name: names[0], value: names[2] },
        loader_info::Parameter { name: names[1], value: names[3] },
        loader_info::Parameter { name: names[0], value: names[3] },
    ];
    assert_eq!(loader_info::get_parameters(&mut rt, None, &parameters), Ok(Value::Undefined));
    assert_eq!(rt.objects.len(), 0);
    let object = match loader_info::get_parameters(&mut rt, Some(&info), &parameters) {
        Ok(Value::Object(o)) => o,
        other => panic!("expected an object, got {:?}", other),
    };
    assert_eq!(rt.object(object).get_own_dynamic_property(names[0]), Some(Value::String(names[3])));
    assert_eq!(rt.object(object).get_own_dynamic_property(names[1]), Some(Value::String(names[3])));
    assert_eq!(rt.object(object).num_enumerants(), 2);
    assert_eq!(rt.object(object).get_enumerant_name(1), Some(Value::String(names[0])));
    let empty = match loader_info::get_parameters(&mut rt, Some(&info), &Vec::new()) {
        Ok(Value::Object(o)) => o,
        other => panic!("expected an object, got {:?}", other),
    };
    assert_ne!(empty, object);
    assert_eq!(rt.object(empty).num_enumerants(), 0);
}
