//! What is drawn for the displayed message.
use crate::color::{color_of, color_splits_character, parse_color, splits_character};
use crate::outside::{to_uppercase, uppercased};
use crate::picture::Color;
use crate::types::{FontSize, MediaChat};
use egui::TextureHandle;
use vstd::arithmetic::power2::{lemma2_to64, lemma_pow2_adds, pow2};
use vstd::prelude::*;
use vstd::utf8::encode_utf8;

verus! {

/// The bits of the font size of a message that names none: 36 points.
pub const DEFAULT_FONT_SIZE: u32 = 0x4210_0000;

/// The size that the bits of a positive font size stand for, counted in the
/// smallest positive single-precision number.
pub open spec fn font_size_value(size: FontSize) -> int {
    let exponent = size.bits as int / 0x80_0000;
    let fraction = size.bits as int % 0x80_0000;
    if exponent == 0 {
        fraction
    } else {
        (0x80_0000 + fraction) * pow2((exponent - 1) as nat)
    }
}

/// One point is two to the power of 149 of the smallest positive
/// single-precision number, so the default size is 36 of them.
pub proof fn law_default_font_size_is_36_points()
    ensures
        font_size_value(FontSize { bits: DEFAULT_FONT_SIZE }) == 36 * pow2(149),
{
    assert(pow2(18) == 0x4_0000) by {
        lemma2_to64();
    }
    lemma_pow2_adds(18, 131);
    let p = pow2(131) as int;
    assert(0x90_0000 * p == 36 * (0x4_0000 * p)) by (nonlinear_arith);
}

/// The avatar, and the name below it.
pub struct AuthorLine<'a> {
    pub avatar: &'a TextureHandle,
    pub name: String,
}

/// The text of a message.
pub struct Caption {
    pub text: String,
    pub size: FontSize,
    pub color: Color,
}

/// Everything that is drawn for a message.
pub struct Scene<'a> {
    pub author: Option<AuthorLine<'a>>,
    pub media: Option<&'a TextureHandle>,
    pub caption: Option<Caption>,
}

/// A scene, as contracts speak of it.
pub struct SceneView {
    pub author: Option<(TextureHandle, Seq<char>)>,
    pub media: Option<TextureHandle>,
    pub caption: Option<(Seq<char>, FontSize, Color)>,
}

impl<'a> View for Scene<'a> {
    type V = SceneView;

    open spec fn view(&self) -> SceneView {
        SceneView {
            author: match self.author {
                Some(line) => Some((*line.avatar, line.name@)),
                None => None,
            },
            media: match self.media {
                Some(texture) => Some(*texture),
                None => None,
            },
            caption: match self.caption {
                Some(caption) => Some((caption.text@, caption.size, caption.color)),
                None => None,
            },
        }
    }
}

/// Whether a message hides who sent it.
pub open spec fn hides_author(chat: MediaChat) -> bool {
    chat.options matches Some(options) && options.hide_author == Some(true)
}

/// The colour that a message asks for, as written.
pub open spec fn written_color(chat: MediaChat) -> Option<Seq<char>> {
    match chat.options {
        Some(options) => match options.text {
            Some(text) => match text.color {
                Some(color) => Some(color@),
                None => None,
            },
            None => None,
        },
        None => None,
    }
}

/// The colour of the text of a message: white unless a readable colour is asked for.
pub open spec fn text_color(chat: MediaChat) -> Color {
    let white = Color { r: 255, g: 255, b: 255, a: 255 };
    match written_color(chat) {
        Some(text) => match color_of(encode_utf8(text)) {
            Some(color) => color,
            None => white,
        },
        None => white,
    }
}

/// The size of the text of a message.
pub open spec fn text_size(chat: MediaChat) -> FontSize {
    match chat.options {
        Some(options) => match options.text {
            Some(text) => match text.font_size {
                Some(size) => size,
                None => FontSize { bits: DEFAULT_FONT_SIZE },
            },
            None => FontSize { bits: DEFAULT_FONT_SIZE },
        },
        None => FontSize { bits: DEFAULT_FONT_SIZE },
    }
}

/// Whether the colour of a message cannot be parsed because a channel would
/// end in the middle of a character.
pub open spec fn color_is_broken(chat: MediaChat) -> bool {
    written_color(chat) matches Some(text) && splits_character(encode_utf8(text))
}

/// The scene of a message with the textures that have been loaded so far.
pub open spec fn scene_of(
    chat: MediaChat,
    avatar: Option<TextureHandle>,
    image: Option<TextureHandle>,
    frame: Option<TextureHandle>,
) -> SceneView {
    SceneView {
        author: if hides_author(chat) {
            None
        } else {
            match avatar {
                Some(texture) => Some((texture, uppercased(chat.author.name@))),
                None => None,
            }
        },
        media: match frame {
            Some(texture) => Some(texture),
            None => image,
        },
        caption: match chat.message {
            Some(message) => if message@.len() == 0 {
                None
            } else {
                Some((uppercased(message@), text_size(chat), text_color(chat)))
            },
            None => None,
        },
    }
}

/// A video frame hides the media image, and the author only ever shows with an
/// avatar and unless the message hides it.
pub proof fn law_scene_precedence(
    chat: MediaChat,
    avatar: Option<TextureHandle>,
    image: Option<TextureHandle>,
    frame: Option<TextureHandle>,
)
    ensures
        frame is Some ==> scene_of(chat, avatar, image, frame).media == frame,
        frame is None ==> scene_of(chat, avatar, image, frame).media == image,
        scene_of(chat, avatar, image, frame).author is Some <==> !hides_author(chat)
            && avatar is Some,
{
}

/// The caption is the text of the message in upper case, and there is one
/// exactly where that text is not empty. Its size is the one that the options
/// name, or 36 points; its colour is the one that they name, or white where they
/// name none or none that can be read.
pub proof fn law_caption_is_the_message(
    chat: MediaChat,
    avatar: Option<TextureHandle>,
    image: Option<TextureHandle>,
    frame: Option<TextureHandle>,
)
    ensures
        ({
            let caption = scene_of(chat, avatar, image, frame).caption;
            &&& caption is Some <==> (chat.message matches Some(message) && message@.len() > 0)
            &&& caption matches Some((text, size, color)) ==> {
                &&& text == uppercased(chat.message->0@)
                &&& (chat.options matches Some(options) && options.text matches Some(style)
                    && style.font_size is Some) ==> chat.options->0.text->0.font_size == Some(size)
                &&& !(chat.options matches Some(options) && options.text matches Some(style)
                    && style.font_size is Some) ==> font_size_value(size) == 36 * pow2(149)
                &&& (chat.options matches Some(options) && options.text matches Some(style)
                    && style.color matches Some(written) && color_of(encode_utf8(written@)) is Some)
                    ==> color_of(encode_utf8(chat.options->0.text->0.color->0@)) == Some(color)
                &&& !(chat.options matches Some(options) && options.text matches Some(style)
                    && style.color matches Some(written) && color_of(encode_utf8(written@)) is Some)
                    ==> color == (Color { r: 255, g: 255, b: 255, a: 255 })
            }
        }),
{
    law_default_font_size_is_36_points();
}

/// The author line is the avatar that was loaded and the name of the author in
/// upper case. There is one exactly where an avatar was loaded and the options
/// do not hide the author.
pub proof fn law_author_line_names_the_author(
    chat: MediaChat,
    avatar: Option<TextureHandle>,
    image: Option<TextureHandle>,
    frame: Option<TextureHandle>,
)
    ensures
        ({
            let author = scene_of(chat, avatar, image, frame).author;
            let hidden = chat.options matches Some(options) && options.hide_author == Some(true);
            &&& author is Some <==> avatar is Some && !hidden
            &&& author matches Some((texture, name)) ==> avatar == Some(texture) && name
                == uppercased(chat.author.name@)
        }),
{
}

/// The textures decide over the author line and the media, the message over the
/// caption: messages with the same text and options have the same caption,
/// whoever sent them and whatever has been loaded.
pub proof fn law_caption_depends_on_text_and_options(
    a: MediaChat,
    b: MediaChat,
    textures: (Option<TextureHandle>, Option<TextureHandle>, Option<TextureHandle>),
    others: (Option<TextureHandle>, Option<TextureHandle>, Option<TextureHandle>),
)
    requires
        a.message == b.message,
        a.options == b.options,
    ensures
        scene_of(a, textures.0, textures.1, textures.2).caption == scene_of(
            b,
            others.0,
            others.1,
            others.2,
        ).caption,
{
}

/// The colour of a message is broken exactly where its options name one that
/// cannot be cut into channels.
pub proof fn law_only_written_colors_are_broken(chat: MediaChat)
    ensures
        color_is_broken(chat) <==> (chat.options matches Some(options)
            && options.text matches Some(style) && style.color matches Some(written)
            && splits_character(encode_utf8(written@))),
{
}

/// A scene shows what its parts hold.
pub proof fn law_scene_shows_its_parts(scene: Scene)
    ensures
        (scene@.author is Some) == (scene.author is Some),
        scene.author matches Some(line) ==> scene@.author == Some((*line.avatar, line.name@)),
        (scene@.media is Some) == (scene.media is Some),
        scene.media matches Some(texture) ==> scene@.media == Some(*texture),
        (scene@.caption is Some) == (scene.caption is Some),
        scene.caption matches Some(caption) ==> scene@.caption == Some(
            (caption.text@, caption.size, caption.color),
        ),
{
}

/// The colour that a message asks for, as written.
fn color_text(chat: &MediaChat) -> (r: Option<&str>)
    ensures
        (r is Some) == (written_color(*chat) is Some),
        r matches Some(text) ==> text@ == written_color(*chat)->0,
{
    match &chat.options {
        Some(options) => match &options.text {
            Some(text) => match &text.color {
                Some(color) => Some(color.as_str()),
                None => None,
            },
            None => None,
        },
        None => None,
    }
}

/// Tells whether the colour of a message is broken.
pub fn has_broken_color(chat: &MediaChat) -> (r: bool)
    ensures
        r == color_is_broken(*chat),
{
    match color_text(chat) {
        Some(text) => color_splits_character(text),
        None => false,
    }
}

/// Composes the scene of a message.
pub fn compose<'a>(
    chat: &MediaChat,
    avatar: Option<&'a TextureHandle>,
    image: Option<&'a TextureHandle>,
    frame: Option<&'a TextureHandle>,
) -> (scene: Scene<'a>)
    requires
        !color_is_broken(*chat),
    ensures
        scene@ == scene_of(
            *chat,
            match avatar {
                Some(texture) => Some(*texture),
                None => None,
            },
            match image {
                Some(texture) => Some(*texture),
                None => None,
            },
            match frame {
                Some(texture) => Some(*texture),
                None => None,
            },
        ),
        // The caption is the message, where it is not empty.
        (scene.caption is Some) == (chat.message matches Some(message) && message@.len() > 0),
        scene.caption matches Some(caption) ==> caption.text@ == uppercased(chat.message->0@),
        // The author line is the avatar and the name of the author.
        (scene.author is Some) == (avatar is Some && !(chat.options matches Some(options)
            && options.hide_author == Some(true))),
        scene.author matches Some(line) ==> avatar == Some(line.avatar) && line.name@ == uppercased(
            chat.author.name@,
        ),
        // A video frame hides the media image.
        frame is Some ==> scene.media == frame,
        frame is None ==> scene.media == image,
{
    let hide_author = match &chat.options {
        Some(options) => match options.hide_author {
            Some(hidden) => hidden,
            None => false,
        },
        None => false,
    };
    let author = if hide_author {
        None
    } else {
        match avatar {
            Some(texture) => Some(
                AuthorLine { avatar: texture, name: to_uppercase(chat.author.name.as_str()) },
            ),
            None => None,
        }
    };
    let media = match frame {
        Some(texture) => Some(texture),
        None => image,
    };
    let color = match parse_color(color_text(chat)) {
        Some(color) => color,
        None => Color { r: 255, g: 255, b: 255, a: 255 },
    };
    let size = match &chat.options {
        Some(options) => match &options.text {
            Some(text) => match text.font_size {
                Some(size) => size,
                None => FontSize { bits: DEFAULT_FONT_SIZE },
            },
            None => FontSize { bits: DEFAULT_FONT_SIZE },
        },
        None => FontSize { bits: DEFAULT_FONT_SIZE },
    };
    let caption = match &chat.message {
        Some(message) => if message.as_str().is_empty() {
            None
        } else {
            Some(Caption { text: to_uppercase(message.as_str()), size, color })
        },
        None => None,
    };
    Scene { author, media, caption }
}

/// A copy of a text, moved by a number of points.
#[derive(Clone, Copy, Debug, PartialEq, Eq, Structural)]
pub struct Stroke {
    pub dx: i32,
    pub dy: i32,
    pub color: Color,
}

/// The strokes of a text with an outline of one point: the outline at the four
/// diagonal corners, then the text itself on top.
pub open spec fn strokes_of(fill: Color, outline: Color) -> Seq<Stroke> {
    seq![
        Stroke { dx: (-1) as i32, dy: (-1) as i32, color: outline },
        Stroke { dx: 1i32, dy: (-1) as i32, color: outline },
        Stroke { dx: (-1) as i32, dy: 1i32, color: outline },
        Stroke { dx: 1i32, dy: 1i32, color: outline },
        Stroke { dx: 0i32, dy: 0i32, color: fill },
    ]
}

/// The outline is drawn once at each of the four diagonal corners and below the
/// text, which is drawn last and in its place.
pub proof fn law_outline_lies_below_the_text(fill: Color, outline: Color)
    ensures
        strokes_of(fill, outline).len() == 5,
        strokes_of(fill, outline)[4] == (Stroke { dx: 0, dy: 0, color: fill }),
        forall|i: int|
            0 <= i < 4 ==> {
                let stroke = #[trigger] strokes_of(fill, outline)[i];
                &&& stroke.color == outline
                &&& stroke.dx == -1 || stroke.dx == 1
                &&& stroke.dy == -1 || stroke.dy == 1
            },
        forall|i: int, j: int|
            0 <= i < j < 4 ==> {
                let (a, b) = (
                    #[trigger] strokes_of(fill, outline)[i],
                    #[trigger] strokes_of(fill, outline)[j],
                );
                a.dx != b.dx || a.dy != b.dy
            },
{
}

/// Lays out an outlined text.
pub fn outlined_text(fill: Color, outline: Color) -> (strokes: Vec<Stroke>)
    ensures
        strokes@ == strokes_of(fill, outline),
{
    let strokes = vec![
        Stroke { dx: -1, dy: -1, color: outline },
        Stroke { dx: 1, dy: -1, color: outline },
        Stroke { dx: -1, dy: 1, color: outline },
        Stroke { dx: 1, dy: 1, color: outline },
        Stroke { dx: 0, dy: 0, color: fill },
    ];
    assert(strokes@ =~= strokes_of(fill, outline));
    strokes
}

} // verus!
