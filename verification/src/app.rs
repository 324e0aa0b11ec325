//! The application layer: one explicit model holding the universe, the
//! render settings and the run status, with a command-like entry point for
//! each atomic mutation.
//!
//! Change notification is an outgoing event queue: every mutation appends
//! the properties it changed to `events`, and the caller drains them with
//! `take_events` and dispatches to its own listeners. The timer that drives
//! periodic iteration lives outside; it calls `app_iterate` on each tick.

use vstd::prelude::*;
use crate::coordinate::{CartesianP, MatrixP};
use crate::preset::{
    get_preset, get_preset_groups, lemma_preset_live_bounds, spec_preset_live, Preset,
};
use crate::rect::{
    move_by, rect_in_range, spec_length, spec_zoom_to, zoom_in, zoom_out, zoom_to, Rect,
};
use crate::render::RenderSettings;
use crate::universe::{
    get_camera, iterable, iterate, pt, set_max_x, set_max_y, set_min_x, set_min_y,
    spec_absolute_target, spec_block, spec_fit_camera, spec_next, spec_toggled, toggle_cell,
    toggle_cell_by_absolute_point, Universe,
};

verus! {

/// One selectable preset for a host UI's option list.
#[derive(Debug, Clone)]
pub struct PresetOptionItem {
    pub label: String,
    pub value: String,
}

/// One labelled group of preset options for a host UI.
#[derive(Debug, Clone)]
pub struct PresetOptionGroup {
    pub label: String,
    pub value: String,
    pub options: Vec<PresetOptionItem>,
}

/// Whether the periodic iteration is running.
#[derive(Debug, PartialEq, Eq, Structural, Clone, Copy)]
pub enum Status {
    Resumed,
    Paused,
}

/// A property of the model that a mutation changed; listeners react to it.
#[derive(Debug, PartialEq, Eq, Structural, Clone, Copy)]
pub enum Prop {
    Universe,
    Preset,
    Gap,
    FPS,
    Status,
    Dim,
    Cam,
}

/// A command for the periodic-iteration driver.
#[derive(Debug, PartialEq, Eq, Structural, Clone, Copy)]
pub enum Command {
    Start,
    Stop,
}

/// The mutable settings beside the universe itself.
#[derive(Debug, PartialEq, Clone)]
pub struct AppSettings {
    pub preset: Option<String>,
    pub fps: u16,
    pub status: Status,
    pub render_settings: RenderSettings,
}

/// A snapshot of the model for a host UI.
#[derive(Debug, PartialEq)]
pub struct AppInfo {
    pub preset: Option<String>,
    pub gap: u8,
    pub size: u16,
    pub fps: u16,
    pub status: Status,
    pub age: u64,
}

/// What a drawing collaborator offers: clearing and filling pixel squares.
/// The render loop hands it the rectangles that `get_values_to_render`
/// computed, and nothing else.
pub trait DrawContext {
    fn clear(&self, s: Rect);

    fn draw_square(&self, s: Rect, color: String);
}

/// The single mutable model: the universe, the settings, and the queue of
/// change events not yet drained by the caller.
#[derive(Debug)]
pub struct Model {
    pub universe: Universe,
    pub settings: AppSettings,
    pub events: Vec<Prop>,
}

impl Model {
    /// The universe's well-formedness carries over to the model.
    pub open spec fn wf(self) -> bool {
        self.universe.wf()
    }
}

impl Default for Model {
    /// The starting model: the block preset, its auto-fit camera, 4 frames
    /// per second, paused, no canvas size or gap yet.
    fn default() -> (m: Model)
        ensures
            m.wf(),
            m.universe.live() == spec_block(-1, 0),
            m.universe.age == 0,
            m.settings.preset matches Some(nm) && nm@ == "block"@,
            m.settings.fps == 4,
            m.settings.status == Status::Paused,
            m.settings.render_settings.cam == (Rect { x1: -5i64, y1: -4i64, x2: 4i64, y2: 5i64 }),
            m.settings.render_settings.dim == 0,
            m.settings.render_settings.gap == 0,
            m.events@ == Seq::<Prop>::empty(),
    {
        let name = String::from_str("block");
        let universe = match get_preset(&name) {
            Some(u) => u,
            None => {
                proof {
                    assert(false);
                }
                Universe::default()
            },
        };
        proof {
            lemma_preset_live_bounds(name@);
            assert(universe.live().contains((-1int, 0int)));
            assert(universe.live().contains((0int, 1int)));
            assert forall|q: (int, int)| #[trigger] universe.live().contains(q) implies -1 <= q.0
                <= 0 && 0 <= q.1 <= 1 by {}
            crate::universe::lemma_set_bounds_are(universe.live(), -1, 0, 0, 1);
        }
        let cam = get_camera(&universe);
        proof {
            assert(spec_fit_camera(-1, 0, 0, 1) == (-5int, -4int, 4int, 5int));
            assert(cam == (Rect { x1: -5i64, y1: -4i64, x2: 4i64, y2: 5i64 }));
        }
        Model {
            universe,
            settings: AppSettings {
                preset: Some(name),
                fps: 4,
                status: Status::Paused,
                render_settings: RenderSettings { cam, dim: 0, gap: 0 },
            },
            events: Vec::new(),
        }
    }
}

/// Appends one change event for the caller to drain.
pub fn on_change(model: &mut Model, prop: Prop)
    ensures
        final(model).universe == old(model).universe,
        final(model).settings == old(model).settings,
        final(model).events@ == old(model).events@.push(prop),
{
    model.events.push(prop);
}

/// Hands the queued change events over and leaves the queue empty.
pub fn take_events(model: &mut Model) -> (evs: Vec<Prop>)
    ensures
        final(model).universe == old(model).universe,
        final(model).settings == old(model).settings,
        final(model).events@ == Seq::<Prop>::empty(),
        evs@ == old(model).events@,
{
    let mut evs: Vec<Prop> = Vec::new();
    core::mem::swap(&mut evs, &mut model.events);
    evs
}

/// The tick interval in milliseconds for a frame rate.
pub fn fps_to_mili(fps: u16) -> (r: u16)
    requires
        fps >= 1,
    ensures
        r as int == 1000int / (fps as int),
{
    1000 / fps
}

/// Stops the periodic iteration.
pub fn app_pause(model: &mut Model)
    ensures
        final(model).universe == old(model).universe,
        final(model).settings.status == Status::Paused,
        final(model).settings.preset == old(model).settings.preset,
        final(model).settings.fps == old(model).settings.fps,
        final(model).settings.render_settings == old(model).settings.render_settings,
        final(model).events@ == old(model).events@.push(Prop::Status),
{
    model.settings.status = Status::Paused;
    on_change(model, Prop::Status);
}

/// Starts the periodic iteration.
pub fn app_resume(model: &mut Model)
    ensures
        final(model).universe == old(model).universe,
        final(model).settings.status == Status::Resumed,
        final(model).settings.preset == old(model).settings.preset,
        final(model).settings.fps == old(model).settings.fps,
        final(model).settings.render_settings == old(model).settings.render_settings,
        final(model).events@ == old(model).events@.push(Prop::Status),
{
    model.settings.status = Status::Resumed;
    on_change(model, Prop::Status);
}

/// Sets the square canvas size in pixels.
pub fn app_set_dimension(model: &mut Model, dim: u16)
    ensures
        final(model).universe == old(model).universe,
        final(model).settings.render_settings.dim == dim,
        final(model).settings.render_settings.cam == old(model).settings.render_settings.cam,
        final(model).settings.render_settings.gap == old(model).settings.render_settings.gap,
        final(model).settings.preset == old(model).settings.preset,
        final(model).settings.fps == old(model).settings.fps,
        final(model).settings.status == old(model).settings.status,
        final(model).events@ == old(model).events@.push(Prop::Dim),
{
    model.settings.render_settings.dim = dim;
    on_change(model, Prop::Dim);
}

/// Sets the inter-cell gap in pixels.
pub fn app_set_gap(model: &mut Model, gap: u8)
    ensures
        final(model).universe == old(model).universe,
        final(model).settings.render_settings.gap == gap,
        final(model).settings.render_settings.cam == old(model).settings.render_settings.cam,
        final(model).settings.render_settings.dim == old(model).settings.render_settings.dim,
        final(model).settings.preset == old(model).settings.preset,
        final(model).settings.fps == old(model).settings.fps,
        final(model).settings.status == old(model).settings.status,
        final(model).events@ == old(model).events@.push(Prop::Gap),
{
    model.settings.render_settings.gap = gap;
    on_change(model, Prop::Gap);
}

/// Sets the frame rate of the periodic iteration.
pub fn app_set_fps(model: &mut Model, fps: u16)
    ensures
        final(model).universe == old(model).universe,
        final(model).settings.fps == fps,
        final(model).settings.preset == old(model).settings.preset,
        final(model).settings.status == old(model).settings.status,
        final(model).settings.render_settings == old(model).settings.render_settings,
        final(model).events@ == old(model).events@.push(Prop::FPS),
{
    model.settings.fps = fps;
    on_change(model, Prop::FPS);
}

/// Switches to a named preset: the universe is replaced, the camera
/// auto-fits around it, and the preset name is remembered. An unknown name
/// leaves the model untouched and raises no event.
pub fn app_set_preset(model: &mut Model, preset: String)
    ensures
        final(model).settings.fps == old(model).settings.fps,
        final(model).settings.status == old(model).settings.status,
        final(model).settings.render_settings.dim == old(model).settings.render_settings.dim,
        final(model).settings.render_settings.gap == old(model).settings.render_settings.gap,
        match spec_preset_live(preset@) {
            Some(l) => {
                &&& final(model).universe.live() == l
                &&& final(model).universe.age == 0
                &&& final(model).wf()
                &&& final(model).settings.preset == Some(preset)
                &&& (final(model).settings.render_settings.cam.x1 as int,
                final(model).settings.render_settings.cam.y1 as int,
                final(model).settings.render_settings.cam.x2 as int,
                final(model).settings.render_settings.cam.y2 as int) == spec_fit_camera(
                    set_min_x(l),
                    set_min_y(l),
                    set_max_x(l),
                    set_max_y(l),
                )
                &&& final(model).events@ == old(model).events@.push(Prop::Universe).push(
                    Prop::Preset,
                ).push(Prop::Cam)
            },
            None => {
                &&& final(model).universe == old(model).universe
                &&& final(model).settings == old(model).settings
                &&& final(model).events@ == old(model).events@
            },
        },
{
    match get_preset(&preset) {
        Some(selected) => {
            proof {
                lemma_preset_live_bounds(preset@);
                assert(selected.value@.len() > 0) by {
                    match spec_preset_live(preset@) {
                        Some(l) => {
                            assert(l.contains((0int, 0int)) || l.contains((0int, 1int)));
                        },
                        None => {},
                    }
                }
            }
            model.settings.render_settings.cam = get_camera(&selected);
            model.universe = selected;
            model.settings.preset = Some(preset);
            on_change(model, Prop::Universe);
            on_change(model, Prop::Preset);
            on_change(model, Prop::Cam);
        },
        None => {},
    }
}

/// Pauses, then advances one generation.
pub fn app_single_iteration(model: &mut Model)
    requires
        iterable(old(model).universe.live()),
        old(model).universe.age < u64::MAX,
    ensures
        final(model).wf(),
        final(model).universe.live() == spec_next(old(model).universe.live()),
        final(model).universe.age == old(model).universe.age + 1,
        final(model).settings.status == Status::Paused,
        final(model).settings.preset == old(model).settings.preset,
        final(model).settings.fps == old(model).settings.fps,
        final(model).settings.render_settings == old(model).settings.render_settings,
        final(model).events@ == old(model).events@.push(Prop::Status).push(Prop::Universe),
{
    model.settings.status = Status::Paused;
    iterate(&mut model.universe);
    on_change(model, Prop::Status);
    on_change(model, Prop::Universe);
}

/// Advances one generation.
pub fn app_iterate(model: &mut Model)
    requires
        iterable(old(model).universe.live()),
        old(model).universe.age < u64::MAX,
    ensures
        final(model).wf(),
        final(model).universe.live() == spec_next(old(model).universe.live()),
        final(model).universe.age == old(model).universe.age + 1,
        final(model).settings == old(model).settings,
        final(model).events@ == old(model).events@.push(Prop::Universe),
{
    iterate(&mut model.universe);
    on_change(model, Prop::Universe);
}

/// Flips one world cell and forgets the preset name.
pub fn app_toggle_by_point(model: &mut Model, p: CartesianP)
    requires
        old(model).wf(),
    ensures
        final(model).wf(),
        final(model).universe.live() == spec_toggled(old(model).universe.live(), pt(p)),
        final(model).universe.age == old(model).universe.age,
        final(model).settings.preset is None,
        final(model).settings.fps == old(model).settings.fps,
        final(model).settings.status == old(model).settings.status,
        final(model).settings.render_settings == old(model).settings.render_settings,
        final(model).events@ == old(model).events@.push(Prop::Universe).push(Prop::Preset),
{
    toggle_cell(&mut model.universe, p);
    model.settings.preset = None;
    on_change(model, Prop::Universe);
    on_change(model, Prop::Preset);
}

/// Flips the cell under a pixel position of the canvas and forgets the
/// preset name.
pub fn app_toggle_model_cell_by_absolute_point(model: &mut Model, p: MatrixP)
    requires
        old(model).wf(),
        old(model).settings.render_settings.cam.x1 <= old(model).settings.render_settings.cam.x2,
        old(model).settings.render_settings.cam.y1 <= old(model).settings.render_settings.cam.y2,
        -0x1000000000000000 <= old(model).settings.render_settings.cam.x1 <= 0x1000000000000000,
        -0x1000000000000000 <= old(model).settings.render_settings.cam.y1 <= 0x1000000000000000,
        -0x1000000000000000 <= old(model).settings.render_settings.cam.x2 <= 0x1000000000000000,
        -0x1000000000000000 <= old(model).settings.render_settings.cam.y2 <= 0x1000000000000000,
        -0x1000000000000000 <= p.row <= 0x1000000000000000,
        -0x1000000000000000 <= p.col <= 0x1000000000000000,
    ensures
        final(model).wf(),
        final(model).universe.age == old(model).universe.age,
        match spec_absolute_target(
            p,
            old(model).settings.render_settings.cam,
            old(model).settings.render_settings.dim,
        ) {
            None => final(model).universe.live() == old(model).universe.live(),
            Some(t) => final(model).universe.live() == spec_toggled(
                old(model).universe.live(),
                t,
            ),
        },
        final(model).settings.preset is None,
        final(model).settings.fps == old(model).settings.fps,
        final(model).settings.status == old(model).settings.status,
        final(model).settings.render_settings == old(model).settings.render_settings,
        final(model).events@ == old(model).events@.push(Prop::Universe).push(Prop::Preset),
{
    let cam = model.settings.render_settings.cam;
    let dim = model.settings.render_settings.dim;
    toggle_cell_by_absolute_point(&mut model.universe, p, &cam, dim);
    model.settings.preset = None;
    on_change(model, Prop::Universe);
    on_change(model, Prop::Preset);
}

/// Zooms the camera in by one cell on every side.
pub fn app_zoom_in(model: &mut Model)
    requires
        rect_in_range(old(model).settings.render_settings.cam),
        old(model).settings.render_settings.cam.x1 <= old(model).settings.render_settings.cam.x2,
        spec_length(old(model).settings.render_settings.cam) <= 0x2000000000000000,
    ensures
        final(model).universe == old(model).universe,
        final(model).settings.render_settings.cam == spec_zoom_to(
            old(model).settings.render_settings.cam,
            spec_length(old(model).settings.render_settings.cam) - 2,
        ),
        final(model).settings.render_settings.dim == old(model).settings.render_settings.dim,
        final(model).settings.render_settings.gap == old(model).settings.render_settings.gap,
        final(model).settings.preset == old(model).settings.preset,
        final(model).settings.fps == old(model).settings.fps,
        final(model).settings.status == old(model).settings.status,
        final(model).events@ == old(model).events@.push(Prop::Cam),
{
    zoom_in(&mut model.settings.render_settings.cam);
    on_change(model, Prop::Cam);
}

/// Zooms the camera out by one cell on every side.
pub fn app_zoom_out(model: &mut Model)
    requires
        rect_in_range(old(model).settings.render_settings.cam),
        old(model).settings.render_settings.cam.x1 <= old(model).settings.render_settings.cam.x2,
        spec_length(old(model).settings.render_settings.cam) + 2 <= 0x2000000000000000,
    ensures
        final(model).universe == old(model).universe,
        final(model).settings.render_settings.cam == spec_zoom_to(
            old(model).settings.render_settings.cam,
            spec_length(old(model).settings.render_settings.cam) + 2,
        ),
        final(model).settings.render_settings.dim == old(model).settings.render_settings.dim,
        final(model).settings.render_settings.gap == old(model).settings.render_settings.gap,
        final(model).settings.preset == old(model).settings.preset,
        final(model).settings.fps == old(model).settings.fps,
        final(model).settings.status == old(model).settings.status,
        final(model).events@ == old(model).events@.push(Prop::Cam),
{
    zoom_out(&mut model.settings.render_settings.cam);
    on_change(model, Prop::Cam);
}

/// Zooms the camera to an exact side length, centered where it was.
pub fn app_zoom_to(model: &mut Model, new_size: u16)
    requires
        rect_in_range(old(model).settings.render_settings.cam),
    ensures
        final(model).universe == old(model).universe,
        final(model).settings.render_settings.cam == spec_zoom_to(
            old(model).settings.render_settings.cam,
            new_size as int,
        ),
        final(model).settings.render_settings.dim == old(model).settings.render_settings.dim,
        final(model).settings.render_settings.gap == old(model).settings.render_settings.gap,
        final(model).settings.preset == old(model).settings.preset,
        final(model).settings.fps == old(model).settings.fps,
        final(model).settings.status == old(model).settings.status,
        final(model).events@ == old(model).events@.push(Prop::Cam),
{
    zoom_to(&mut model.settings.render_settings.cam, new_size);
    on_change(model, Prop::Cam);
}

/// Pans the camera by a delta in world cells.
pub fn app_move_model(model: &mut Model, delta: CartesianP)
    requires
        i64::MIN <= old(model).settings.render_settings.cam.x1 + delta.x <= i64::MAX,
        i64::MIN <= old(model).settings.render_settings.cam.x2 + delta.x <= i64::MAX,
        i64::MIN <= old(model).settings.render_settings.cam.y1 + delta.y <= i64::MAX,
        i64::MIN <= old(model).settings.render_settings.cam.y2 + delta.y <= i64::MAX,
    ensures
        final(model).universe == old(model).universe,
        final(model).settings.render_settings.cam.x1 == old(
            model,
        ).settings.render_settings.cam.x1 + delta.x,
        final(model).settings.render_settings.cam.y1 == old(
            model,
        ).settings.render_settings.cam.y1 + delta.y,
        final(model).settings.render_settings.cam.x2 == old(
            model,
        ).settings.render_settings.cam.x2 + delta.x,
        final(model).settings.render_settings.cam.y2 == old(
            model,
        ).settings.render_settings.cam.y2 + delta.y,
        final(model).settings.render_settings.dim == old(model).settings.render_settings.dim,
        final(model).settings.render_settings.gap == old(model).settings.render_settings.gap,
        final(model).settings.preset == old(model).settings.preset,
        final(model).settings.fps == old(model).settings.fps,
        final(model).settings.status == old(model).settings.status,
        final(model).events@ == old(model).events@.push(Prop::Universe),
{
    move_by(&mut model.settings.render_settings.cam, delta);
    on_change(model, Prop::Universe);
}

/// A snapshot of the settings, with the camera's side length as the size.
pub fn app_get_settings(model: &Model) -> (info: AppInfo)
    requires
        model.settings.render_settings.cam.x1 <= model.settings.render_settings.cam.x2,
        spec_length(model.settings.render_settings.cam) <= u16::MAX,
    ensures
        info.preset == model.settings.preset,
        info.gap == model.settings.render_settings.gap,
        info.size as int == spec_length(model.settings.render_settings.cam),
        info.fps == model.settings.fps,
        info.status == model.settings.status,
        info.age == model.universe.age,
{
    let cam = model.settings.render_settings.cam;
    let size = (cam.x2 - cam.x1 + 1) as u16;
    AppInfo {
        preset: match &model.settings.preset {
            Some(s) => Some(s.clone()),
            None => None,
        },
        gap: model.settings.render_settings.gap,
        size,
        fps: model.settings.fps,
        status: model.settings.status,
        age: model.universe.age,
    }
}

/// Copies one catalog entry.
fn clone_preset(p: &Preset) -> (r: Preset)
    ensures
        r == *p,
{
    Preset { id: p.id.clone(), name: p.name.clone() }
}

/// The flat list of every preset of the catalog, in catalog order.
pub fn build_presets() -> (out: Vec<Preset>)
    ensures
        out@.len() == 5,
        out@[0].id@ == "block"@,
        out@[1].id@ == "beehive"@,
        out@[2].id@ == "blinker"@,
        out@[3].id@ == "toad"@,
        out@[4].id@ == "r_pentomino"@,
        forall|i: int| 0 <= i < out@.len() ==> spec_preset_live((#[trigger] out@[i]).id@) is Some,
{
    let groups = get_preset_groups();
    let mut out: Vec<Preset> = Vec::new();
    out.push(clone_preset(&groups[0].sub_groups[0].items[0]));
    out.push(clone_preset(&groups[0].sub_groups[0].items[1]));
    out.push(clone_preset(&groups[1].sub_groups[0].items[0]));
    out.push(clone_preset(&groups[1].sub_groups[0].items[1]));
    out.push(clone_preset(&groups[2].sub_groups[0].items[0]));
    out
}

/// One option of the grouped list, copied from a catalog entry: the
/// pattern's name as the label, its id as the value.
fn option_of(p: &Preset) -> (r: PresetOptionItem)
    ensures
        r.label@ == p.name@,
        r.value@ == p.id@,
{
    PresetOptionItem { label: p.name.clone(), value: p.id.clone() }
}

/// The catalog as labelled option groups for a host UI: each group's name
/// and id become the group label and value, each pattern's name and id an
/// option's label and value.
pub fn build_preset_option_groups() -> (out: Vec<PresetOptionGroup>)
    ensures
        out@.len() == 3,
        out@[0].label@ == "Still life"@,
        out@[0].value@ == "still_life"@,
        out@[0].options@.len() == 2,
        out@[0].options@[0].label@ == "Block"@,
        out@[0].options@[0].value@ == "block"@,
        out@[0].options@[1].label@ == "Beehive"@,
        out@[0].options@[1].value@ == "beehive"@,
        out@[1].label@ == "Oscillators"@,
        out@[1].value@ == "oscillators"@,
        out@[1].options@.len() == 2,
        out@[1].options@[0].label@ == "Blinker"@,
        out@[1].options@[0].value@ == "blinker"@,
        out@[1].options@[1].label@ == "Toad"@,
        out@[1].options@[1].value@ == "toad"@,
        out@[2].label@ == "Methuselahs"@,
        out@[2].value@ == "methuselahs"@,
        out@[2].options@.len() == 1,
        out@[2].options@[0].label@ == "R-pentomino"@,
        out@[2].options@[0].value@ == "r_pentomino"@,
{
    let groups = get_preset_groups();
    let mut o1: Vec<PresetOptionItem> = Vec::new();
    o1.push(option_of(&groups[0].sub_groups[0].items[0]));
    o1.push(option_of(&groups[0].sub_groups[0].items[1]));
    let mut o2: Vec<PresetOptionItem> = Vec::new();
    o2.push(option_of(&groups[1].sub_groups[0].items[0]));
    o2.push(option_of(&groups[1].sub_groups[0].items[1]));
    let mut o3: Vec<PresetOptionItem> = Vec::new();
    o3.push(option_of(&groups[2].sub_groups[0].items[0]));
    let mut out: Vec<PresetOptionGroup> = Vec::new();
    out.push(
        PresetOptionGroup {
            label: groups[0].info.name.clone(),
            value: groups[0].info.id.clone(),
            options: o1,
        },
    );
    out.push(
        PresetOptionGroup {
            label: groups[1].info.name.clone(),
            value: groups[1].info.id.clone(),
            options: o2,
        },
    );
    out.push(
        PresetOptionGroup {
            label: groups[2].info.name.clone(),
            value: groups[2].info.id.clone(),
            options: o3,
        },
    );
    out
}

} // verus!
