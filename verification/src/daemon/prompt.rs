//! Prompt composition from module outputs.
//!
//! Layout (Starship-compatible):
//! - Info line (left1): `[directory] on [git] via [custom modules] took [cmd_duration]`
//! - Input line (left2): `at [time] [character]`
use vstd::prelude::*;

use crate::config::{Config, exit_style_spec, lock_glyph, prompt_style_spec};
use crate::module::custom::CustomModuleInfo;
use crate::module::cmd_duration::{CmdDurationModule, duration_text};
use crate::module::directory::{DirectoryModule, directory_text, opt_str_view};
use crate::module::time::{render_time, time_text};
use crate::module::{Module, RenderContext};
use crate::render::segment::{Connector, Icon, Segment};
use crate::render::style::{ColorMap, Style, paint_spec, paintable};
use crate::render::layout::{clamp, visible_width};
use crate::render::{PromptLines, all_paintable, compose_line_spec, compose_segments, join_spec, rendered_spec};

verus! {

/// The outputs of the fast modules.
#[derive(Debug, Clone)]
pub struct FastOutputs {
    /// The formatted working directory.
    pub directory: Option<String>,
    /// The duration of the last command, when shown.
    pub cmd_duration: Option<String>,
    /// The time of day, when shown.
    pub time: Option<String>,
    /// The prompt glyph.
    pub character: Option<String>,
    /// Exit code of the last command.
    pub last_exit_code: i32,
    /// Whether the working directory is read-only.
    pub read_only: bool,
    /// Detected fast custom modules.
    pub custom_modules: Vec<CustomModuleInfo>,
}

/// The outputs of the slow modules.
#[derive(Debug, Clone, PartialEq, Eq)]
pub struct SlowOutput {
    /// The rendered git status, if in a repository.
    pub git: Option<String>,
    /// Detected slow custom modules.
    pub custom_modules: Vec<CustomModuleInfo>,
}

/// The text of a segment: painted connector and a space, painted icon and a
/// space, then the content, painted when it has a style.
pub open spec fn part(
    connector: Option<(Seq<char>, Style)>,
    icon: Option<(Seq<char>, Style)>,
    content: Seq<char>,
    style: Option<Style>,
    cm: ColorMap,
) -> Seq<char> {
    (match connector {
        Some((w, s)) => paint_spec(s, w, cm) + seq![' '],
        None => Seq::empty(),
    }) + (match icon {
        Some((g, s)) => paint_spec(s, g, cm) + seq![' '],
        None => Seq::empty(),
    }) + (match style {
        Some(s) => paint_spec(s, content, cm),
        None => content,
    })
}

/// The optional view of an optional string.
pub open spec fn opt_text(s: Option<String>) -> Option<Seq<char>> {
    match s {
        Some(v) => Some(v@),
        None => None,
    }
}

/// The rendered directory segment.
pub open spec fn directory_part(config: Config, dir: Seq<char>, read_only: bool) -> Seq<char> {
    let cm = config.color_map;
    let ds = prompt_style_spec(config.directory.style);
    if read_only {
        paint_spec(ds, dir, cm) + seq![' '] + paint_spec(prompt_style_spec(config.directory.read_only_style), lock_glyph(), cm)
    } else {
        paint_spec(ds, dir, cm)
    }
}

/// The rendered git segment.
pub open spec fn git_part(config: Config, git: Seq<char>) -> Seq<char> {
    part(
        Some((config.git.connector@, prompt_style_spec(config.connectors.style))),
        Some((config.git.icon@, prompt_style_spec(config.git.style))),
        git,
        None,
        config.color_map,
    )
}

/// The rendered segment of a custom module.
pub open spec fn custom_part(config: Config, m: CustomModuleInfo) -> Seq<char> {
    part(
        match m.connector {
            Some(w) => Some((w@, prompt_style_spec(config.connectors.style))),
            None => None,
        },
        match m.icon {
            Some(g) => Some((g@, m.style)),
            None => None,
        },
        m.value@,
        Some(m.style),
        config.color_map,
    )
}

/// The rendered segments of custom modules.
pub open spec fn custom_parts(config: Config, ms: Seq<CustomModuleInfo>) -> Seq<Seq<char>> {
    Seq::new(ms.len(), |i: int| custom_part(config, ms[i]))
}

/// The rendered segment following a connector word in a fixed style.
pub open spec fn worded_part(config: Config, word: Seq<char>, content: Seq<char>, style: Style) -> Seq<char> {
    part(Some((word, prompt_style_spec(config.connectors.style))), None, content, Some(style), config.color_map)
}

/// The rendered segments of the info line.
pub open spec fn line1_parts(fast: FastOutputs, slow: Option<SlowOutput>, config: Config) -> Seq<Seq<char>> {
    (match fast.directory {
        Some(d) => seq![directory_part(config, d@, fast.read_only)],
        None => Seq::empty(),
    }) + (match slow {
        Some(s) => match s.git {
            Some(g) => seq![git_part(config, g@)],
            None => Seq::empty(),
        },
        None => Seq::empty(),
    }) + custom_parts(config, fast.custom_modules@) + (match slow {
        Some(s) => custom_parts(config, s.custom_modules@),
        None => Seq::empty(),
    }) + (match fast.cmd_duration {
        Some(d) => seq![worded_part(config, config.cmd_duration.connector@, d@, prompt_style_spec(config.cmd_duration.style))],
        None => Seq::empty(),
    })
}

/// The rendered segments of the input line.
pub open spec fn line2_parts(fast: FastOutputs, config: Config) -> Seq<Seq<char>> {
    (match fast.time {
        Some(t) => seq![worded_part(config, config.time.connector@, t@, prompt_style_spec(config.time.style))],
        None => Seq::empty(),
    }) + (match fast.character {
        Some(c) => seq![paint_spec(exit_style_spec(config.character, fast.last_exit_code), c@, config.color_map)],
        None => Seq::empty(),
    })
}

/// Creates a connector word segment part.
pub fn make_connector(word: &str, style: Style) -> (r: Connector)
    ensures
        r.word@ == word@,
        r.style == style,
{
    Connector { word: word.to_owned(), style }
}

/// Creates an icon segment part.
pub fn make_icon(glyph: &str, style: Style) -> (r: Icon)
    ensures
        r.glyph@ == glyph@,
        r.style == style,
{
    Icon { glyph: glyph.to_owned(), style }
}

fn push_segment(segments: &mut Vec<Segment>, seg: Segment, Ghost(text): Ghost<Seq<char>>, cm: ColorMap)
    requires
        seg.paintable_with(cm),
        seg.render_spec(cm) == text,
        all_paintable(old(segments)@, cm),
    ensures
        all_paintable(final(segments)@, cm),
        rendered_spec(final(segments)@, cm) == rendered_spec(old(segments)@, cm).push(text),
{
    let ghost before = segments@;
    segments.push(seg);
    assert(rendered_spec(segments@, cm) =~= rendered_spec(before, cm).push(text));
    assert forall|i: int| 0 <= i < segments@.len() implies #[trigger] segments@[i].paintable_with(cm) by {
        if i < before.len() {
            assert(segments@[i] == before[i]);
        }
    }
}

/// Appends the segment of a custom module.
pub fn push_custom_module_segment(segments: &mut Vec<Segment>, module: &CustomModuleInfo, config: &Config)
    requires
        config.color_map.wf(),
        all_paintable(old(segments)@, config.color_map),
    ensures
        all_paintable(final(segments)@, config.color_map),
        rendered_spec(final(segments)@, config.color_map) == rendered_spec(old(segments)@, config.color_map).push(
            custom_part(*config, *module),
        ),
{
    let seg = module.to_segment(config.connectors.prompt_style());
    proof {
        assert(paintable(module.style, config.color_map));
        assert(paintable(prompt_style_spec(config.connectors.style), config.color_map));
        assert(seg.render_spec(config.color_map) =~= custom_part(*config, *module));
    }
    push_segment(segments, seg, Ghost(custom_part(*config, *module)), config.color_map);
}

fn push_customs(segments: &mut Vec<Segment>, modules: &Vec<CustomModuleInfo>, config: &Config)
    requires
        config.color_map.wf(),
        all_paintable(old(segments)@, config.color_map),
    ensures
        all_paintable(final(segments)@, config.color_map),
        rendered_spec(final(segments)@, config.color_map) == rendered_spec(old(segments)@, config.color_map)
            + custom_parts(*config, modules@),
{
    let ghost start = rendered_spec(segments@, config.color_map);
    let mut i: usize = 0;
    while i < modules.len()
        invariant
            i <= modules.len(),
            config.color_map.wf(),
            all_paintable(segments@, config.color_map),
            rendered_spec(segments@, config.color_map) == start + custom_parts(*config, modules@.take(i as int)),
        decreases modules.len() - i,
    {
        push_custom_module_segment(segments, &modules[i], config);
        assert(custom_parts(*config, modules@.take(i + 1)) =~= custom_parts(*config, modules@.take(i as int)).push(
            custom_part(*config, modules@[i as int]),
        ));
        i = i + 1;
    }
    assert(modules@.take(modules.len() as int) =~= modules@);
}

/// Composes the two prompt lines from the module outputs.
pub fn compose_prompt(fast: &FastOutputs, slow: Option<&SlowOutput>, cols: usize, config: &Config) -> (r: PromptLines)
    requires
        config.color_map.wf(),
    ensures
        r.left1@ == compose_line_spec(
            line1_parts(*fast, match slow { Some(s) => Some(*s), None => None }, *config),
            cols as nat,
        ),
        r.left2@ == compose_line_spec(line2_parts(*fast, *config), cols as nat),
{
    let cm = config.color_map;
    let cstyle = config.connectors.prompt_style();
    let mut line1: Vec<Segment> = Vec::new();
    assert(rendered_spec(line1@, cm) =~= Seq::<Seq<char>>::empty());
    if let Some(dir) = &fast.directory {
        let seg = config.directory.to_segment(dir.as_str(), fast.read_only, cm);
        proof {
            assert(seg.render_spec(cm) =~= directory_part(*config, dir@, fast.read_only));
        }
        push_segment(&mut line1, seg, Ghost(directory_part(*config, dir@, fast.read_only)), cm);
    }
    let ghost after_dir = rendered_spec(line1@, cm);
    if let Some(s) = slow {
        if let Some(git) = &s.git {
            let seg = config.git.to_segment(git.as_str(), cstyle);
            proof {
                assert(seg.render_spec(cm) =~= git_part(*config, git@));
            }
            push_segment(&mut line1, seg, Ghost(git_part(*config, git@)), cm);
        }
    }
    let ghost after_git = rendered_spec(line1@, cm);
    push_customs(&mut line1, &fast.custom_modules, config);
    if let Some(s) = slow {
        push_customs(&mut line1, &s.custom_modules, config);
    }
    let ghost after_customs = rendered_spec(line1@, cm);
    if let Some(duration) = &fast.cmd_duration {
        let seg = config.cmd_duration.to_segment(duration.as_str(), cstyle);
        let ghost t = worded_part(*config, config.cmd_duration.connector@, duration@, prompt_style_spec(config.cmd_duration.style));
        proof {
            assert(seg.render_spec(cm) =~= t);
        }
        push_segment(&mut line1, seg, Ghost(t), cm);
    }
    assert(rendered_spec(line1@, cm) =~= line1_parts(*fast, match slow { Some(s) => Some(*s), None => None }, *config));
    let mut line2: Vec<Segment> = Vec::new();
    assert(rendered_spec(line2@, cm) =~= Seq::<Seq<char>>::empty());
    if let Some(time) = &fast.time {
        let seg = config.time.to_segment(time.as_str(), cstyle);
        let ghost t = worded_part(*config, config.time.connector@, time@, prompt_style_spec(config.time.style));
        proof {
            assert(seg.render_spec(cm) =~= t);
        }
        push_segment(&mut line2, seg, Ghost(t), cm);
    }
    if let Some(character) = &fast.character {
        let seg = config.character.to_segment(character.as_str(), fast.last_exit_code);
        let ghost t = paint_spec(exit_style_spec(config.character, fast.last_exit_code), character@, cm);
        proof {
            assert(seg.render_spec(cm) =~= t);
        }
        push_segment(&mut line2, seg, Ghost(t), cm);
    }
    assert(rendered_spec(line2@, cm) =~= line2_parts(*fast, *config));
    compose_segments(line1.as_slice(), line2.as_slice(), cols, cm)
}

/// Gathers the fast module outputs for a request: the directory, the last
/// command's duration (past the configured threshold), the time of day
/// (unless the time module is disabled; `time_of_day` is the local time when
/// known), and the configured prompt glyph.
pub fn run_fast_modules(
    ctx: &RenderContext<'_>,
    config: &Config,
    read_only: bool,
    time_of_day: Option<(u8, u8, u8)>,
    custom_modules: Vec<CustomModuleInfo>,
) -> (r: FastOutputs)
    ensures
        opt_text(r.directory) == Some(directory_text(ctx.cwd@, ctx.home_dir@, opt_str_view(ctx.git_root))),
        opt_text(r.cmd_duration) == match ctx.duration_ms {
            Some(ms) => if ms >= config.cmd_duration.threshold_ms { Some(duration_text(ms as nat)) } else { None },
            None => None,
        },
        opt_text(r.time) == if config.time.disabled { None } else {
            match time_of_day {
                Some((h, m, s)) => Some(time_text(h, m, s, config.time.format == crate::config::TimeFormat::WithSeconds)),
                None => None,
            }
        },
        opt_text(r.character) == Some(config.character.glyph@),
        r.last_exit_code == ctx.last_exit_code,
        r.read_only == read_only,
        r.custom_modules == custom_modules,
{
    let directory = match DirectoryModule::new().render(ctx) {
        Some(o) => Some(o.content),
        None => None,
    };
    let cmd_duration = match CmdDurationModule::with_threshold(config.cmd_duration.threshold_ms).render(ctx) {
        Some(o) => Some(o.content),
        None => None,
    };
    let time = if config.time.disabled {
        None
    } else {
        match render_time(time_of_day, config.time.show_seconds()) {
            Some(o) => Some(o.content),
            None => None,
        }
    };
    FastOutputs {
        directory,
        cmd_duration,
        time,
        character: Some(config.character.glyph.as_str().to_owned()),
        last_exit_code: ctx.last_exit_code,
        read_only,
        custom_modules,
    }
}

/// A slow result holding neither a git status nor custom modules composes
/// the same info line as no slow result at all.
pub proof fn lemma_empty_slow_output(fast: FastOutputs, slow: SlowOutput, config: Config)
    requires
        slow.git is None,
        slow.custom_modules@.len() == 0,
    ensures
        line1_parts(fast, Some(slow), config) == line1_parts(fast, None, config),
        forall|cols: nat|
            #[trigger] compose_line_spec(line1_parts(fast, Some(slow), config), cols) == compose_line_spec(
                line1_parts(fast, None, config),
                cols,
            ),
{
    assert(custom_parts(config, slow.custom_modules@) =~= Seq::<Seq<char>>::empty());
    let d = match fast.directory {
        Some(d) => seq![directory_part(config, d@, fast.read_only)],
        None => Seq::<Seq<char>>::empty(),
    };
    let c = custom_parts(config, fast.custom_modules@);
    let t = match fast.cmd_duration {
        Some(x) => seq![worded_part(config, config.cmd_duration.connector@, x@, prompt_style_spec(config.cmd_duration.style))],
        None => Seq::<Seq<char>>::empty(),
    };
    assert(d + Seq::<Seq<char>>::empty() + c + Seq::<Seq<char>>::empty() + t =~= d + Seq::<Seq<char>>::empty() + c
        + custom_parts(config, slow.custom_modules@) + t);
}


/// The time of day is on the input line, never on the info line; the input
/// line holds the time (after its connector word) and then the glyph,
/// painted in the success style after a command that succeeded and in the
/// error style otherwise (green and red with the default styles).
pub proof fn lemma_time_and_glyph_on_input_line(fast: FastOutputs, slow: Option<SlowOutput>, config: Config)
    ensures
        line1_parts(fast, slow, config) == line1_parts(FastOutputs { time: None, ..fast }, slow, config),
        fast.time matches Some(t) ==> line2_parts(fast, config)[0] == worded_part(
            config,
            config.time.connector@,
            t@,
            prompt_style_spec(config.time.style),
        ),
        fast.character matches Some(c) ==> line2_parts(fast, config).last() == paint_spec(
            exit_style_spec(config.character, fast.last_exit_code),
            c@,
            config.color_map,
        ),
        config.character.success_style.fg == Some(crate::render::style::Color::Green) ==> (fast.last_exit_code == 0
            ==> exit_style_spec(config.character, fast.last_exit_code).fg == Some(crate::render::style::Color::Green)),
        config.character.error_style.fg == Some(crate::render::style::Color::Red) ==> (fast.last_exit_code != 0
            ==> exit_style_spec(config.character, fast.last_exit_code).fg == Some(crate::render::style::Color::Red)),
{
}

/// When the input line fits the width, it is shown whole: the time part (its
/// connector word, a space, the painted time), a space, then the painted glyph.
pub proof fn lemma_input_line_when_it_fits(fast: FastOutputs, config: Config, cols: nat)
    requires
        fast.time is Some,
        fast.character matches Some(c) && c@.len() > 0,
        cols > 0,
        clamp(visible_width(join_spec(line2_parts(fast, config)))) <= cols,
    ensures
        compose_line_spec(line2_parts(fast, config), cols) == worded_part(
            config,
            config.time.connector@,
            fast.time->0@,
            prompt_style_spec(config.time.style),
        ) + seq![' '] + paint_spec(
            exit_style_spec(config.character, fast.last_exit_code),
            fast.character->0@,
            config.color_map,
        ),
{
    let a = worded_part(config, config.time.connector@, fast.time->0@, prompt_style_spec(config.time.style));
    let b = paint_spec(exit_style_spec(config.character, fast.last_exit_code), fast.character->0@, config.color_map);
    let r = line2_parts(fast, config);
    assert(r =~= seq![a, b]);
    assert(a.len() > 0) by {
        let w = paint_spec(prompt_style_spec(config.connectors.style), config.time.connector@, config.color_map);
        assert(a == w + seq![' '] + paint_spec(prompt_style_spec(config.time.style), fast.time->0@, config.color_map));
    }
    assert(b.len() > 0);
    assert(r.drop_last() =~= seq![a]);
    assert(seq![a].drop_last() =~= Seq::<Seq<char>>::empty());
    assert(join_spec(Seq::<Seq<char>>::empty()) =~= Seq::<char>::empty());
    assert(seq![a].last() == a);
    assert(join_spec(seq![a]) == a);
}

} // verus!
