//! What the user asks for, and the colours of the contribution matrix.

use vstd::prelude::*;
use vstd::string::StrSliceExecFns;

verus! {

/// The offset from UTC that dates are read at where none is given.
pub const DEFAULT_OFFSET: &'static str = "+0900";

/// The theme where none is given.
pub const DEFAULT_THEME: &'static str = "auto";

/// What the user asks for.
#[derive(Debug)]
pub struct Args {
    /// GitHub login name. Defaults to the login name of the GitHub API token owner.
    pub login: Option<String>,
    /// GitHub personal access token
    pub github_token: String,
    /// Start date, in YYYY-MM-DD format. Default value will be the first Sunday before 52 weeks
    /// ago. If specified, it will be the first Sunday before the specified date.
    pub from: Option<String>,
    /// End date, in YYYY-MM-DD format. Please note that the total time spanned by 'from' and 'to'
    /// must not exceed 1 year. Default value will be the first Saturday after today. If specified,
    /// it will be the first Saturday after the specified date.
    pub to: Option<String>,
    /// Offset from UTC, in (+|-)HHMM format
    pub offset: String,
    /// Display number of public repositories owned
    pub display_public_repositories: bool,
    /// Do not display contribution matrix
    pub no_display_matrix: bool,
    /// Theme for the contribution matrix. Possible values: dark, light, or auto
    pub theme: Theme,
}

impl Args {
    /// Whether the window is made of whole weeks: it is, unless both of its
    /// bounds are given.
    pub open spec fn spec_is_aligned(&self) -> bool {
        self.from is None || self.to is None
    }

    /// Whether the window is made of whole weeks: it is, unless both of its
    /// bounds are given.
    #[verifier::when_used_as_spec(spec_is_aligned)]
    pub fn is_aligned(&self) -> (r: bool)
        ensures
            r == self.spec_is_aligned(),
    {
        self.from.is_none() || self.to.is_none()
    }

    /// Whether the contribution matrix is shown: where it was not switched
    /// off and the window is made of whole weeks, as the rows of the matrix
    /// need it.
    pub fn display_matrix(&self) -> (r: bool)
        ensures
            r == (!self.no_display_matrix && self.spec_is_aligned()),
    {
        !self.no_display_matrix && self.is_aligned()
    }
}

/// A colour as its red, green and blue parts.
#[derive(Clone, Copy, Debug, PartialEq, Eq, Structural)]
pub struct Rgb {
    /// The red part.
    pub r: u8,
    /// The green part.
    pub g: u8,
    /// The blue part.
    pub b: u8,
}

/// Whether the background of the terminal is dark or light.
#[derive(Clone, Copy, Debug, PartialEq, Eq, Structural)]
pub enum Background {
    Dark,
    Light,
}

/// The colours of the contribution matrix, from no contributions to the
/// most.
#[derive(Clone, Copy, Debug, PartialEq, Eq)]
pub enum Theme {
    Dark([Rgb; 5]),
    Light([Rgb; 5]),
    /// The theme that goes with the background of the terminal, not looked
    /// up yet.
    Auto,
}

/// The colours on a dark background.
pub open spec fn dark_palette() -> Seq<Rgb> {
    seq![
        Rgb { r: 22, g: 27, b: 34 },
        Rgb { r: 14, g: 68, b: 41 },
        Rgb { r: 0, g: 109, b: 50 },
        Rgb { r: 38, g: 166, b: 65 },
        Rgb { r: 57, g: 211, b: 83 },
    ]
}

/// The colours on a light background.
pub open spec fn light_palette() -> Seq<Rgb> {
    seq![
        Rgb { r: 235, g: 237, b: 240 },
        Rgb { r: 155, g: 233, b: 168 },
        Rgb { r: 64, g: 196, b: 99 },
        Rgb { r: 48, g: 161, b: 78 },
        Rgb { r: 33, g: 110, b: 57 },
    ]
}

/// The first character of a text, or the character zero where the text is
/// empty.
pub open spec fn initial_of(text: Seq<char>) -> char {
    if text.len() == 0 {
        '\0'
    } else {
        text[0]
    }
}

/// What `str::to_lowercase` makes of a text.
pub uninterp spec fn lowercase(text: Seq<char>) -> Seq<char>;

/// `str::to_lowercase`: the text in lower case, which depends on the text
/// alone.
#[verifier::external_body]
fn str_to_lowercase(text: &str) -> (r: String)
    ensures
        r@ == lowercase(text@),
{
    text.to_lowercase()
}

impl Theme {
    /// Whether the theme is the dark one.
    pub open spec fn is_dark(self) -> bool {
        self matches Theme::Dark(palette) && palette@ == dark_palette()
    }

    /// Whether the theme is the light one.
    pub open spec fn is_light(self) -> bool {
        self matches Theme::Light(palette) && palette@ == light_palette()
    }

    /// Whether `r` is what the first character of a name stands for: the
    /// dark theme for `d`, the light theme for `l`, the theme that goes
    /// with the background of the terminal for `a`, and an error for any
    /// other character.
    pub open spec fn is_named_by(initial: char, r: Result<Self, String>) -> bool {
        if initial == 'd' {
            r matches Ok(theme) && theme.is_dark()
        } else if initial == 'l' {
            r matches Ok(theme) && theme.is_light()
        } else if initial == 'a' {
            r matches Ok(theme) && theme is Auto
        } else {
            r matches Err(message) && message@ == "Invalid theme"@
        }
    }

    /// The theme for a dark background.
    pub fn dark() -> (r: Self)
        ensures
            r.is_dark(),
    {
        let palette = [
            Rgb { r: 22, g: 27, b: 34 },
            Rgb { r: 14, g: 68, b: 41 },
            Rgb { r: 0, g: 109, b: 50 },
            Rgb { r: 38, g: 166, b: 65 },
            Rgb { r: 57, g: 211, b: 83 },
        ];
        assert(palette@ =~= dark_palette());
        Self::Dark(palette)
    }

    /// The theme for a light background.
    pub fn light() -> (r: Self)
        ensures
            r.is_light(),
    {
        let palette = [
            Rgb { r: 235, g: 237, b: 240 },
            Rgb { r: 155, g: 233, b: 168 },
            Rgb { r: 64, g: 196, b: 99 },
            Rgb { r: 48, g: 161, b: 78 },
            Rgb { r: 33, g: 110, b: 57 },
        ];
        assert(palette@ =~= light_palette());
        Self::Light(palette)
    }

    /// The theme that goes with a background.
    pub fn from_background(background: Background) -> (r: Self)
        ensures
            background == Background::Dark ==> r.is_dark(),
            background == Background::Light ==> r.is_light(),
    {
        match background {
            Background::Dark => Self::dark(),
            Background::Light => Self::light(),
        }
    }

    /// The colours of the theme. The theme that is not looked up yet has
    /// none.
    pub fn deref(&self) -> (r: &[Rgb; 5])
        requires
            !(self is Auto),
        ensures
            self matches Theme::Dark(palette) ==> *r == palette,
            self matches Theme::Light(palette) ==> *r == palette,
    {
        match self {
            Self::Dark(palette) => palette,
            Self::Light(palette) => palette,
            Self::Auto => vstd::pervasive::unreached(),
        }
    }

    /// The theme whose name starts with the character `initial`: `d` for
    /// dark, `l` for light, `a` for the theme that goes with the background
    /// of the terminal. Any other character is an error.
    pub fn from_initial(initial: char) -> (r: Result<Self, String>)
        ensures
            Self::is_named_by(initial, r),
    {
        if initial == 'd' {
            Ok(Self::dark())
        } else if initial == 'l' {
            Ok(Self::light())
        } else if initial == 'a' {
            Ok(Self::Auto)
        } else {
            Err("Invalid theme".to_owned())
        }
    }

    /// The theme of a name, which goes by the first character of the name in
    /// lower case, as [`Theme::from_initial`] says.
    pub fn from_str(s: &str) -> (r: Result<Self, String>)
        ensures
            Self::is_named_by(initial_of(lowercase(s@)), r),
    {
        let lower = str_to_lowercase(s);
        let initial = if lower.as_str().unicode_len() == 0 {
            '\0'
        } else {
            lower.as_str().get_char(0)
        };
        Self::from_initial(initial)
    }

    /// The theme with its colours: the theme that goes with the background
    /// of the terminal is looked up in `detected`, and is the dark one where
    /// the background is not known. A dark or light theme stays.
    pub fn resolve(self, detected: Option<Background>) -> (r: Self)
        ensures
            !(r is Auto),
            !(self is Auto) ==> r == self,
            self is Auto && detected == Some(Background::Light) ==> r.is_light(),
            self is Auto && detected != Some(Background::Light) ==> r.is_dark(),
    {
        match self {
            Self::Auto => match detected {
                Some(background) => Self::from_background(background),
                None => Self::from_background(Background::Dark),
            },
            theme => theme,
        }
    }
}

} // verus!
