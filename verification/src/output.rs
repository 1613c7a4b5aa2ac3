//! Terminal output: the lines the program prints, with or without ANSI
//! colours.

use vstd::prelude::*;
use crate::text::{hex_lower, owned, push_char, push_hex, str_eq};
use crate::types::Match;

verus! {

broadcast use vstd::string::group_string_axioms;

/// ANSI colour codes for terminal output.
pub struct Colors;

impl Colors {
    /// Reset colour.
    pub const RESET: &'static str = "\x1b[0m";

    /// Success statements.
    pub const GREEN: &'static str = "\x1b[32m";

    /// Paths, files, URLs.
    pub const CYAN: &'static str = "\x1b[36m";

    /// Action statements.
    pub const YELLOW: &'static str = "\x1b[33m";

    /// Magenta.
    pub const MAGENTA: &'static str = "\x1b[35m";

    /// Violet for process names (256-colour mode #99).
    pub const VIOLET: &'static str = "\x1b[38;5;99m";

    /// Red, for Windows.
    pub const PLATFORM_WINDOWS: &'static str = "\x1b[31m";

    /// Peach (256-colour mode #202), for macOS.
    pub const PLATFORM_MACOS: &'static str = "\x1b[38;5;202m";

    /// Blue (256-colour mode #27), for Linux.
    pub const PLATFORM_LINUX: &'static str = "\x1b[38;5;27m";

    /// Colours are used when stdout is a terminal and `NO_COLOR` is not set.
    pub fn should_enable(stdout_is_tty: bool, no_color_set: bool) -> (b: bool)
        ensures
            b == (stdout_is_tty && !no_color_set),
    {
        stdout_is_tty && !no_color_set
    }

    /// The colour of a platform name: red for `Windows`, peach for `Darwin`,
    /// blue for `Linux`, violet otherwise.
    pub fn get_platform_color(platform_name: &str) -> (c: &'static str)
        ensures
            c@ == platform_color(platform_name@),
    {
        if str_eq(platform_name, "Windows") {
            Self::PLATFORM_WINDOWS
        } else if str_eq(platform_name, "Darwin") {
            Self::PLATFORM_MACOS
        } else if str_eq(platform_name, "Linux") {
            Self::PLATFORM_LINUX
        } else {
            Self::VIOLET
        }
    }
}

/// The colour of a platform name.
pub open spec fn platform_color(name: Seq<char>) -> Seq<char> {
    if name == "Windows"@ {
        Colors::PLATFORM_WINDOWS@
    } else if name == "Darwin"@ {
        Colors::PLATFORM_MACOS@
    } else if name == "Linux"@ {
        Colors::PLATFORM_LINUX@
    } else {
        Colors::VIOLET@
    }
}

/// The character shown for a context byte: the byte itself when printable
/// ASCII, else `⁇`.
pub open spec fn context_char(b: u8) -> char {
    if 32 <= b <= 126 {
        b as char
    } else {
        '\u{2047}'
    }
}

/// `message` in `color`, or plain.
pub open spec fn colored(colors: bool, color: Seq<char>, message: Seq<char>) -> Seq<char> {
    if colors {
        color + message + Colors::RESET@
    } else {
        message
    }
}

/// An indented `label value` line, the label in cyan when colours are on.
pub open spec fn labelled(colors: bool, label: Seq<char>, value: Seq<char>) -> Seq<char> {
    "  "@ + colored(colors, Colors::CYAN@, label) + " "@ + value
}

/// A line of 65 `=`.
pub open spec fn rule_line() -> Seq<char> {
    Seq::new(65, |i: int| '=')
}

/// The lines printed for a match in verbose mode; nothing otherwise.
pub open spec fn match_report(colors: bool, verbose: bool, m: crate::types::MatchView) -> Seq<
    Seq<char>,
> {
    if !verbose {
        Seq::empty()
    } else {
        seq!["  "@ + colored(colors, Colors::GREEN@, "*** ACCOUNT ID FOUND ***"@)] + match m.address {
            Some(a) => seq![labelled(colors, "Address:"@, "0x"@ + hex_lower(a as nat))],
            None => Seq::empty(),
        } + match m.region {
            Some(r) => seq![labelled(colors, "Region:"@, r)],
            None => Seq::empty(),
        } + seq![
            labelled(colors, "String:"@, m.string),
            labelled(colors, "Context:"@, m.context.map_values(|b: u8| context_char(b))),
            Seq::<char>::empty(),
        ]
    }
}

/// The views of a list of lines.
pub open spec fn lines_view(v: Seq<String>) -> Seq<Seq<char>> {
    v.map_values(|s: String| s@)
}

/// Builds all coloured and verbose output.
pub struct OutputFormatter {
    pub colors_enabled: bool,
    /// When false, verbose-only details (raw match address/region/string)
    /// are suppressed.
    pub verbose: bool,
}

impl OutputFormatter {
    /// A quiet formatter; `colors_enabled` comes from [`Colors::should_enable`].
    pub fn new(colors_enabled: bool) -> (f: Self)
        ensures
            f.colors_enabled == colors_enabled,
            !f.verbose,
    {
        OutputFormatter { colors_enabled, verbose: false }
    }

    /// A formatter with an explicit verbosity setting.
    pub fn with_verbose(colors_enabled: bool, verbose: bool) -> (f: Self)
        ensures
            f.colors_enabled == colors_enabled,
            f.verbose == verbose,
    {
        OutputFormatter { colors_enabled, verbose }
    }

    /// Context bytes as readable text, `⁇` standing for non-printable bytes.
    pub fn format_context_text(context_bytes: &[u8]) -> (s: String)
        ensures
            s@ == context_bytes@.map_values(|b: u8| context_char(b)),
    {
        let mut s = String::new();
        let mut i: usize = 0;
        while i < context_bytes.len()
            invariant
                i <= context_bytes@.len(),
                s@ == context_bytes@.subrange(0, i as int).map_values(|b: u8| context_char(b)),
            decreases context_bytes@.len() - i,
        {
            let b = context_bytes[i];
            let c = if 32 <= b && b <= 126 {
                b as char
            } else {
                '\u{2047}'
            };
            let ghost before = s@;
            push_char(&mut s, c);
            assert(context_bytes@.subrange(0, i + 1).map_values(|b: u8| context_char(b)) =~= before.push(c));
            i = i + 1;
        }
        assert(context_bytes@.subrange(0, i as int) =~= context_bytes@);
        s
    }

    /// `message` coloured with `color` when colours are on, else plain.
    pub fn colored_line(&self, color: &str, message: &str) -> (s: String)
        ensures
            s@ == colored(self.colors_enabled, color@, message@),
    {
        if self.colors_enabled {
            let mut s = owned(color);
            s.append(message);
            s.append(Colors::RESET);
            s
        } else {
            owned(message)
        }
    }

    fn labelled_line(&self, label: &str, value: &str) -> (s: String)
        ensures
            s@ == labelled(self.colors_enabled, label@, value@),
    {
        let mut s = owned("  ");
        let l = self.colored_line(Colors::CYAN, label);
        s.append(l.as_str());
        s.append(" ");
        s.append(value);
        s
    }

    /// The platform banner: `Platform: <name>` (label in magenta, name in
    /// its platform colour when colours are on), then a rule of 65 `=`.
    pub fn platform_info_lines(&self, platform_name: &str) -> (lines: Vec<String>)
        ensures
            lines_view(lines@) == seq![
                if self.colors_enabled {
                    Colors::MAGENTA@ + "Platform:"@ + Colors::RESET@ + " "@ + platform_color(
                        platform_name@,
                    ) + platform_name@ + Colors::RESET@
                } else {
                    "Platform: "@ + platform_name@
                },
                rule_line(),
            ],
    {
        let header = if self.colors_enabled {
            let mut h = owned(Colors::MAGENTA);
            h.append("Platform:");
            h.append(Colors::RESET);
            h.append(" ");
            h.append(Colors::get_platform_color(platform_name));
            h.append(platform_name);
            h.append(Colors::RESET);
            h
        } else {
            let mut h = owned("Platform: ");
            h.append(platform_name);
            h
        };
        let mut rule = String::new();
        let mut i: usize = 0;
        while i < 65
            invariant
                i <= 65,
                rule@ == Seq::new(i as nat, |k: int| '='),
            decreases 65 - i,
        {
            push_char(&mut rule, '=');
            assert(rule@ =~= Seq::new((i + 1) as nat, |k: int| '='));
            i = i + 1;
        }
        let mut lines: Vec<String> = Vec::new();
        lines.push(header);
        lines.push(rule);
        assert(lines_view(lines@) =~= seq![lines@[0]@, lines@[1]@]);
        lines
    }

    /// The lines printed for a match: its address, region, text and context
    /// in verbose mode; nothing otherwise.
    pub fn match_lines(&self, match_data: &Match) -> (lines: Vec<String>)
        ensures
            lines_view(lines@) == match_report(self.colors_enabled, self.verbose, match_data@),
    {
        let mut lines: Vec<String> = Vec::new();
        if !self.verbose {
            assert(lines_view(lines@) =~= Seq::<Seq<char>>::empty());
            return lines;
        }
        let mut head = owned("  ");
        let found = self.colored_line(Colors::GREEN, "*** ACCOUNT ID FOUND ***");
        head.append(found.as_str());
        lines.push(head);
        let ghost first = lines_view(lines@);
        match match_data.address {
            Some(address) => {
                let mut value = owned("0x");
                push_hex(&mut value, address as u64);
                lines.push(self.labelled_line("Address:", value.as_str()));
            },
            None => {},
        }
        let ghost second = lines_view(lines@);
        match &match_data.region {
            Some(region) => {
                lines.push(self.labelled_line("Region:", region.as_str()));
            },
            None => {},
        }
        let ghost third = lines_view(lines@);
        lines.push(self.labelled_line("String:", match_data.string.as_str()));
        let context = Self::format_context_text(match_data.context.as_slice());
        lines.push(self.labelled_line("Context:", context.as_str()));
        lines.push(String::new());
        proof {
            let m = match_data@;
            let head_part = seq![
                "  "@ + colored(self.colors_enabled, Colors::GREEN@, "*** ACCOUNT ID FOUND ***"@),
            ];
            let addr_part = match m.address {
                Some(a) => seq![labelled(self.colors_enabled, "Address:"@, "0x"@ + hex_lower(a as nat))],
                None => Seq::<Seq<char>>::empty(),
            };
            let region_part = match m.region {
                Some(r) => seq![labelled(self.colors_enabled, "Region:"@, r)],
                None => Seq::<Seq<char>>::empty(),
            };
            assert(first =~= head_part);
            assert(second =~= head_part + addr_part);
            assert(third =~= head_part + addr_part + region_part);
            assert(lines_view(lines@) =~= match_report(self.colors_enabled, self.verbose, m));
        }
        lines
    }
}

} // verus!
