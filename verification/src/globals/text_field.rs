//! The properties of a text field, as scripts read and write them.
//!
//! The functions take the values that a script passed after the interpreter
//! has converted them: a flag, a color number, a string.

use vstd::prelude::*;
use vstd::string::StringExecFns;
use vstd::string::StrSliceExecFns;
use crate::strings::eq_ignore_ascii_case;
use crate::strings::folded;
use crate::strings::str_eq;
use crate::value::ObjectId;
use crate::value::Value;

verus! {

/// A color with an alpha channel.
#[derive(Clone, Copy, Debug, PartialEq, Eq, Structural)]
pub struct Color {
    pub r: u8,
    pub g: u8,
    pub b: u8,
    pub a: u8,
}

impl Color {
    pub open spec fn spec_from_rgb(rgb: u32, alpha: u8) -> Color {
        Color {
            r: ((rgb >> 16) & 0xff) as u8,
            g: ((rgb >> 8) & 0xff) as u8,
            b: (rgb & 0xff) as u8,
            a: alpha,
        }
    }

    pub open spec fn spec_to_rgb(&self) -> u32 {
        ((self.r as u32) << 16) | ((self.g as u32) << 8) | (self.b as u32)
    }

    /// The color of the number `rgb`, whose lowest three bytes are red,
    /// green and blue, with the alpha `alpha`.
    #[verifier::when_used_as_spec(spec_from_rgb)]
    pub fn from_rgb(rgb: u32, alpha: u8) -> (r: Color)
        ensures
            r == Color::spec_from_rgb(rgb, alpha),
    {
        let red = (rgb >> 16) & 0xff;
        let green = (rgb >> 8) & 0xff;
        let blue = rgb & 0xff;
        assert(red <= 0xff && green <= 0xff && blue <= 0xff) by (bit_vector)
            requires
                red == (rgb >> 16) & 0xff,
                green == (rgb >> 8) & 0xff,
                blue == rgb & 0xff,
        ;
        Color { r: red as u8, g: green as u8, b: blue as u8, a: alpha }
    }

    /// The number of the color: red, green and blue as its lowest three
    /// bytes.
    #[verifier::when_used_as_spec(spec_to_rgb)]
    pub fn to_rgb(&self) -> (r: u32)
        ensures
            r == self.spec_to_rgb(),
    {
        ((self.r as u32) << 16) | ((self.g as u32) << 8) | (self.b as u32)
    }

    /// A color number survives the way into a color and back in its lowest
    /// three bytes.
    pub proof fn lemma_rgb_round_trip(rgb: u32, alpha: u8)
        ensures
            Color::spec_from_rgb(rgb, alpha).spec_to_rgb() == rgb & 0xffffff,
    {
        let red = ((rgb >> 16) & 0xff) as u8;
        let green = ((rgb >> 8) & 0xff) as u8;
        let blue = (rgb & 0xff) as u8;
        assert((((((rgb >> 16) & 0xff) as u8) as u32) << 16) | (((((rgb >> 8) & 0xff) as u8) as u32) << 8) | (((rgb & 0xff) as u8) as u32) == rgb & 0xffffff) by (bit_vector);
    }
}

/// How a text field follows the size of its text.
#[derive(Clone, Copy, Debug, PartialEq, Eq, Structural)]
pub enum AutoSizeMode {
    /// Not at all.
    Off,
    Left,
    Center,
    Right,
}

/// The format of text, as far as the properties of a text field reach it.
#[derive(Clone, Copy, Debug, PartialEq, Eq, Structural)]
pub struct TextFormat {
    pub color: Option<Color>,
}

/// How glyphs are fitted to the pixel grid.
#[derive(Clone, Copy, Debug, PartialEq, Eq, Structural)]
pub enum TextGridFit {
    /// Not at all.
    Off,
    Pixel,
    SubPixel,
}

/// How the text is rendered.
#[derive(Clone, Copy, Debug, PartialEq, Eq, Structural)]
pub struct TextRenderSettings {
    /// Whether the advanced anti-aliasing is used.
    pub is_advanced: bool,
    pub grid_fit: TextGridFit,
}

/// The state of a text field.
#[derive(Debug)]
pub struct EditText {
    pub text: String,
    pub is_password: bool,
    pub is_html: bool,
    pub has_background: bool,
    pub background_color: Color,
    pub has_border: bool,
    pub border_color: Color,
    pub is_device_font: bool,
    pub is_multiline: bool,
    pub is_selectable: bool,
    pub is_word_wrap: bool,
    pub is_editable: bool,
    pub autosize: AutoSizeMode,
    pub render_settings: TextRenderSettings,
    /// The format of the text, where one was set for all of it.
    pub text_format: TextFormat,
    /// The format of text that is entered from now on.
    pub new_text_format: TextFormat,
    /// The variable that the text is bound to, if it is bound.
    pub variable: Option<String>,
}

/// What a script assigned to `autoSize`.
#[derive(Debug)]
pub enum AutoSizeValue {
    /// A string.
    Text(String),
    /// A boolean.
    Flag(bool),
    /// Anything else.
    Other,
}

impl EditText {
    /// A text field without text, with every flag off but for being
    /// selectable, with a white background and a black border.
    pub fn new() -> (r: EditText)
        ensures
            r.text@ == Seq::<char>::empty(),
            !r.is_password && !r.is_html && !r.has_background && !r.has_border,
            !r.is_device_font && !r.is_multiline && r.is_selectable && !r.is_word_wrap,
            !r.is_editable,
            r.autosize == AutoSizeMode::Off,
            r.render_settings == (TextRenderSettings { is_advanced: false, grid_fit: TextGridFit::Pixel }),
            r.background_color == Color::spec_from_rgb(0xffffff, 255),
            r.border_color == Color::spec_from_rgb(0, 255),
            r.text_format.color is None,
            r.new_text_format.color is None,
            r.variable is None,
    {
        EditText {
            text: String::new(),
            is_password: false,
            is_html: false,
            has_background: false,
            background_color: Color::from_rgb(0xffffff, 255),
            has_border: false,
            border_color: Color::from_rgb(0, 255),
            is_device_font: false,
            is_multiline: false,
            is_selectable: true,
            is_word_wrap: false,
            is_editable: false,
            autosize: AutoSizeMode::Off,
            render_settings: TextRenderSettings { is_advanced: false, grid_fit: TextGridFit::Pixel },
            text_format: TextFormat { color: None },
            new_text_format: TextFormat { color: None },
            variable: None,
        }
    }
}

/// The constructor of text fields: it returns its receiver.
pub fn constructor(this: ObjectId) -> (r: Value)
    ensures
        r == Value::Object(this),
{
    Value::Object(this)
}

/// Whether the text is shown as a password.
pub fn password(this: &EditText) -> (r: bool)
    ensures
        r == this.is_password,
{
    this.is_password
}

/// Shows the text as a password, or as it is.
pub fn set_password(this: &mut EditText, value: bool)
    ensures
        *final(this) == (EditText { is_password: value, ..*old(this) }),
{
    this.is_password = value;
}

/// The text.
pub fn text(this: &EditText) -> (r: String)
    ensures
        r@ == this.text@,
{
    this.text.clone()
}

/// Sets the text. Returns whether the text is bound to a variable, which
/// then has to get the new text.
pub fn set_text(this: &mut EditText, value: &str) -> (r: bool)
    ensures
        final(this).text@ == value@,
        *final(this) == (EditText { text: final(this).text, ..*old(this) }),
        r == old(this).variable.is_some(),
{
    this.text = String::from_str(value);
    this.variable.is_some()
}

/// Whether the text is taken as HTML.
pub fn html(this: &EditText) -> (r: bool)
    ensures
        r == this.is_html,
{
    this.is_html
}

/// Takes the text as HTML, or as plain text.
pub fn set_html(this: &mut EditText, value: bool)
    ensures
        *final(this) == (EditText { is_html: value, ..*old(this) }),
{
    this.is_html = value;
}

/// The color number of the text that is entered from now on, if a color was
/// set.
pub fn text_color(this: &EditText) -> (r: Option<u32>)
    ensures
        r == (match this.new_text_format.color {
            Some(c) => Some(c.spec_to_rgb()),
            None => None,
        }),
{
    match this.new_text_format.color {
        Some(c) => Some(c.to_rgb()),
        None => None,
    }
}

/// Gives all the text, and the text that is entered from now on, the color
/// of the number `rgb`.
pub fn set_text_color(this: &mut EditText, rgb: u32)
    ensures
        *final(this) == (EditText {
            text_format: TextFormat { color: Some(Color::spec_from_rgb(rgb, 0)) },
            new_text_format: TextFormat { color: Some(Color::spec_from_rgb(rgb, 0)) },
            ..*old(this)
        }),
{
    let text_format = TextFormat { color: Some(Color::from_rgb(rgb, 0)) };
    this.text_format = text_format;
    this.new_text_format = text_format;
}

/// Whether the field has a background.
pub fn background(this: &EditText) -> (r: bool)
    ensures
        r == this.has_background,
{
    this.has_background
}

/// Gives the field a background, or takes it away.
pub fn set_background(this: &mut EditText, value: bool)
    ensures
        *final(this) == (EditText { has_background: value, ..*old(this) }),
{
    this.has_background = value;
}

/// The color number of the background.
pub fn background_color(this: &EditText) -> (r: u32)
    ensures
        r == this.background_color.spec_to_rgb(),
{
    this.background_color.to_rgb()
}

/// Gives the background the opaque color of the number `rgb`.
pub fn set_background_color(this: &mut EditText, rgb: u32)
    ensures
        *final(this) == (EditText {
            background_color: Color::spec_from_rgb(rgb, 255),
            ..*old(this)
        }),
{
    this.background_color = Color::from_rgb(rgb, 255);
}

/// Whether the field has a border.
pub fn border(this: &EditText) -> (r: bool)
    ensures
        r == this.has_border,
{
    this.has_border
}

/// Gives the field a border, or takes it away.
pub fn set_border(this: &mut EditText, value: bool)
    ensures
        *final(this) == (EditText { has_border: value, ..*old(this) }),
{
    this.has_border = value;
}

/// The color number of the border.
pub fn border_color(this: &EditText) -> (r: u32)
    ensures
        r == this.border_color.spec_to_rgb(),
{
    this.border_color.to_rgb()
}

/// Gives the border the opaque color of the number `rgb`.
pub fn set_border_color(this: &mut EditText, rgb: u32)
    ensures
        *final(this) == (EditText { border_color: Color::spec_from_rgb(rgb, 255), ..*old(this) }),
{
    this.border_color = Color::from_rgb(rgb, 255);
}

/// Whether the field uses the fonts of the movie rather than those of the
/// device.
pub fn embed_fonts(this: &EditText) -> (r: bool)
    ensures
        r == !this.is_device_font,
{
    !this.is_device_font
}

/// Makes the field use the fonts of the movie, or those of the device.
pub fn set_embed_fonts(this: &mut EditText, value: bool)
    ensures
        *final(this) == (EditText { is_device_font: !value, ..*old(this) }),
{
    this.is_device_font = !value;
}

/// The number of characters of the text.
pub fn length(this: &EditText) -> (r: usize)
    ensures
        r == this.text@.len(),
{
    this.text.as_str().unicode_len()
}

/// Whether the field has more than one line.
pub fn multiline(this: &EditText) -> (r: bool)
    ensures
        r == this.is_multiline,
{
    this.is_multiline
}

/// Lets the field have more than one line, or one only.
pub fn set_multiline(this: &mut EditText, value: bool)
    ensures
        *final(this) == (EditText { is_multiline: value, ..*old(this) }),
{
    this.is_multiline = value;
}

/// Whether the text can be selected.
pub fn selectable(this: &EditText) -> (r: bool)
    ensures
        r == this.is_selectable,
{
    this.is_selectable
}

/// Lets the text be selected, or not.
pub fn set_selectable(this: &mut EditText, value: bool)
    ensures
        *final(this) == (EditText { is_selectable: value, ..*old(this) }),
{
    this.is_selectable = value;
}

/// The variable that the text is bound to, if it is bound.
pub fn variable(this: &EditText) -> (r: Option<String>)
    ensures
        match (r, this.variable) {
            (Some(a), Some(b)) => a@ == b@,
            (None, None) => true,
            _ => false,
        },
{
    match &this.variable {
        Some(v) => Some(v.clone()),
        None => None,
    }
}

/// Binds the text to the variable `value`, or to none.
pub fn set_variable(this: &mut EditText, value: Option<String>)
    ensures
        *final(this) == (EditText { variable: value, ..*old(this) }),
{
    this.variable = value;
}

/// Whether lines are wrapped.
pub fn word_wrap(this: &EditText) -> (r: bool)
    ensures
        r == this.is_word_wrap,
{
    this.is_word_wrap
}

/// Wraps lines, or does not.
pub fn set_word_wrap(this: &mut EditText, value: bool)
    ensures
        *final(this) == (EditText { is_word_wrap: value, ..*old(this) }),
{
    this.is_word_wrap = value;
}

/// The name of the way in which the field follows the size of its text.
pub fn auto_size(this: &EditText) -> (r: &'static str)
    ensures
        r@ == (match this.autosize {
            AutoSizeMode::Off => "none"@,
            AutoSizeMode::Left => "left"@,
            AutoSizeMode::Center => "center"@,
            AutoSizeMode::Right => "right"@,
        }),
{
    match this.autosize {
        AutoSizeMode::Off => "none",
        AutoSizeMode::Left => "left",
        AutoSizeMode::Center => "center",
        AutoSizeMode::Right => "right",
    }
}

/// The way of following the text's size that `value` asks for: the strings
/// `left`, `center` and `right`, in any case of the letters, name theirs;
/// `true` asks for `left`; everything else for none.
pub open spec fn auto_size_mode(value: &AutoSizeValue) -> AutoSizeMode {
    match *value {
        AutoSizeValue::Text(s) => if folded(s@) == folded("left"@) {
            AutoSizeMode::Left
        } else if folded(s@) == folded("center"@) {
            AutoSizeMode::Center
        } else if folded(s@) == folded("right"@) {
            AutoSizeMode::Right
        } else {
            AutoSizeMode::Off
        },
        AutoSizeValue::Flag(true) => AutoSizeMode::Left,
        _ => AutoSizeMode::Off,
    }
}

/// Makes the field follow the size of its text in the way that `value` asks
/// for.
pub fn set_auto_size(this: &mut EditText, value: &AutoSizeValue)
    ensures
        *final(this) == (EditText { autosize: auto_size_mode(value), ..*old(this) }),
{
    let mode = match value {
        AutoSizeValue::Text(s) => {
            if eq_ignore_ascii_case(s.as_str(), "left") {
                AutoSizeMode::Left
            } else if eq_ignore_ascii_case(s.as_str(), "center") {
                AutoSizeMode::Center
            } else if eq_ignore_ascii_case(s.as_str(), "right") {
                AutoSizeMode::Right
            } else {
                AutoSizeMode::Off
            }
        },
        AutoSizeValue::Flag(true) => AutoSizeMode::Left,
        _ => AutoSizeMode::Off,
    };
    this.autosize = mode;
}

/// The type of the field: `input` where the user can edit the text, else
/// `dynamic`.
pub fn get_type(this: &EditText) -> (r: &'static str)
    ensures
        r@ == (if this.is_editable {
            "input"@
        } else {
            "dynamic"@
        }),
{
    if this.is_editable {
        "input"
    } else {
        "dynamic"
    }
}

/// Sets the type of the field: `input` or `dynamic`, in any case of the
/// letters. Another value changes nothing. Returns whether the value was one
/// of the two.
pub fn set_type(this: &mut EditText, value: &str) -> (r: bool)
    ensures
        r == (folded(value@) == folded("input"@) || folded(value@) == folded("dynamic"@)),
        *final(this) == (EditText {
            is_editable: if folded(value@) == folded("input"@) {
                true
            } else if folded(value@) == folded("dynamic"@) {
                false
            } else {
                old(this).is_editable
            },
            ..*old(this)
        }),
{
    if eq_ignore_ascii_case(value, "input") {
        this.is_editable = true;
        true
    } else if eq_ignore_ascii_case(value, "dynamic") {
        this.is_editable = false;
        true
    } else {
        false
    }
}

/// The name of the anti-aliasing: `advanced` or `normal`.
pub fn anti_alias_type(this: &EditText) -> (r: &'static str)
    ensures
        r@ == (if this.render_settings.is_advanced {
            "advanced"@
        } else {
            "normal"@
        }),
{
    if this.render_settings.is_advanced {
        "advanced"
    } else {
        "normal"
    }
}

/// Sets the anti-aliasing: `advanced` or `normal`, in exactly these letters.
/// Another value changes nothing.
pub fn set_anti_alias_type(this: &mut EditText, value: &str)
    ensures
        *final(this) == (EditText {
            render_settings: TextRenderSettings {
                is_advanced: if value@ == "advanced"@ {
                    true
                } else if value@ == "normal"@ {
                    false
                } else {
                    old(this).render_settings.is_advanced
                },
                ..old(this).render_settings
            },
            ..*old(this)
        }),
{
    if str_eq(value, "advanced") {
        this.render_settings.is_advanced = true;
    } else if str_eq(value, "normal") {
        this.render_settings.is_advanced = false;
    }
}

/// The name of the grid fitting: `none`, `pixel` or `subpixel`.
pub fn grid_fit_type(this: &EditText) -> (r: &'static str)
    ensures
        r@ == (match this.render_settings.grid_fit {
            TextGridFit::Off => "none"@,
            TextGridFit::Pixel => "pixel"@,
            TextGridFit::SubPixel => "subpixel"@,
        }),
{
    match this.render_settings.grid_fit {
        TextGridFit::Off => "none",
        TextGridFit::Pixel => "pixel",
        TextGridFit::SubPixel => "subpixel",
    }
}

/// The grid fitting that `value` names, if it names one: `pixel`, `subpixel`
/// or `none`, in exactly these letters.
pub open spec fn grid_fit_named(value: Seq<char>) -> Option<TextGridFit> {
    if value == "pixel"@ {
        Some(TextGridFit::Pixel)
    } else if value == "subpixel"@ {
        Some(TextGridFit::SubPixel)
    } else if value == "none"@ {
        Some(TextGridFit::Off)
    } else {
        None
    }
}

/// Sets the grid fitting that `value` names. Another value changes nothing.
pub fn set_grid_fit_type(this: &mut EditText, value: &str)
    ensures
        *final(this) == (EditText {
            render_settings: TextRenderSettings {
                grid_fit: match grid_fit_named(value@) {
                    Some(fit) => fit,
                    None => old(this).render_settings.grid_fit,
                },
                ..old(this).render_settings
            },
            ..*old(this)
        }),
{
    if str_eq(value, "pixel") {
        this.render_settings.grid_fit = TextGridFit::Pixel;
    } else if str_eq(value, "subpixel") {
        this.render_settings.grid_fit = TextGridFit::SubPixel;
    } else if str_eq(value, "none") {
        this.render_settings.grid_fit = TextGridFit::Off;
    }
}

} // verus!
