//! The decisions of the menu shell around the player: which screen is shown,
//! what a message changes, and which widgets a screen puts up.
//!
//! Drawing and persistence are left to the caller. An update says which
//! effect the caller owes; a view says what to draw.

use crate::model::FloatPair;
use crate::store::StoryStore;
use vstd::prelude::*;

verus! {

/// What the widgets of the shell send.
#[derive(Debug, PartialEq, Eq, Clone)]
pub enum GameMessage {
    Exit,
    Screen { id: String },
    ConfigValueChange { id: String, value: i32 },
}

/// A message with its texts as sequences of characters.
pub enum GameMessageView {
    Exit,
    Screen { id: Seq<char> },
    ConfigValueChange { id: Seq<char>, value: i32 },
}

impl View for GameMessage {
    type V = GameMessageView;

    open spec fn view(&self) -> GameMessageView {
        match self {
            GameMessage::Exit => GameMessageView::Exit,
            GameMessage::Screen { id } => GameMessageView::Screen { id: id@ },
            GameMessage::ConfigValueChange { id, value } => GameMessageView::ConfigValueChange {
                id: id@,
                value: *value,
            },
        }
    }
}

/// Size of the window.
#[derive(Debug, PartialEq, Eq, Clone, Copy)]
pub enum WindowScale {
    Small,
    Big,
    Large,
    FullScreen,
}

/// The player's settings.
#[derive(Debug, PartialEq, Eq, Clone, Copy)]
pub struct Config {
    pub character_volume: i32,
    pub sound_effect_volume: i32,
    pub music_volume: i32,
    pub text_playback_speed: i32,
    pub window_scale: WindowScale,
}

/// The setting that a widget reaches under the key `id`.
pub open spec fn config_value(config: Config, id: Seq<char>) -> Option<i32> {
    if id == "character_volume"@ {
        Some(config.character_volume)
    } else {
        None
    }
}

/// The settings after the setting under the key `id` became `value`.
pub open spec fn config_with(config: Config, id: Seq<char>, value: i32) -> Option<Config> {
    if id == "character_volume"@ {
        Some(Config { character_volume: value, ..config })
    } else {
        None
    }
}

impl Default for Config {
    /// The settings of a first start.
    fn default() -> (config: Config)
        ensures
            config == (Config {
                character_volume: 70,
                sound_effect_volume: 50,
                music_volume: 100,
                text_playback_speed: 60,
                window_scale: WindowScale::FullScreen,
            }),
    {
        Config {
            character_volume: 70,
            sound_effect_volume: 50,
            music_volume: 100,
            text_playback_speed: 60,
            window_scale: WindowScale::FullScreen,
        }
    }
}

impl Config {
    /// The setting under the key `id`, if widgets reach one under it.
    pub fn get(&self, id: &str) -> (value: Option<i32>)
        ensures
            value == config_value(*self, id@),
    {
        if id.to_owned() == "character_volume".to_owned() {
            Some(self.character_volume)
        } else {
            None
        }
    }

    /// Makes `value` the setting under the key `id`. Says whether widgets
    /// reach a setting under that key; if not, nothing changes.
    pub fn set(&mut self, id: &str, value: i32) -> (known: bool)
        ensures
            known == config_with(*old(self), id@, value).is_some(),
            known ==> Some(*final(self)) == config_with(*old(self), id@, value),
            !known ==> *final(self) == *old(self),
    {
        if id.to_owned() == "character_volume".to_owned() {
            self.character_volume = value;
            true
        } else {
            false
        }
    }

    /// The playback speed of text in percent; a negative setting counts as
    /// zero.
    pub fn playback_speed_percent(&self) -> (percent: u32)
        ensures
            percent == if self.text_playback_speed < 0 {
                0
            } else {
                self.text_playback_speed as int
            },
    {
        if self.text_playback_speed < 0 {
            0
        } else {
            self.text_playback_speed as u32
        }
    }
}

/// A widget as the manifest describes it.
#[derive(Debug, PartialEq, Eq)]
#[allow(inconsistent_fields)]
pub enum SerdableWidget {
    Button { pos: (i32, i32), scale: FloatPair, action: GameMessage, text: String },
    Slider { pos: (i32, i32), scale: FloatPair, max: i32, min: i32, value: i32, id: String },
    Image { path: String, pos: (i32, i32), scale: (i32, i32) },
}

/// A widget with its texts as sequences of characters.
#[allow(inconsistent_fields)]
pub enum WidgetView {
    Button { pos: (i32, i32), scale: FloatPair, action: GameMessageView, text: Seq<char> },
    Slider { pos: (i32, i32), scale: FloatPair, max: i32, min: i32, value: i32, id: Seq<char> },
    Image { path: Seq<char>, pos: (i32, i32), scale: (i32, i32) },
}

impl View for SerdableWidget {
    type V = WidgetView;

    open spec fn view(&self) -> WidgetView {
        match self {
            SerdableWidget::Button { pos, scale, action, text } => WidgetView::Button {
                pos: *pos,
                scale: *scale,
                action: action@,
                text: text@,
            },
            SerdableWidget::Slider { pos, scale, max, min, value, id } => WidgetView::Slider {
                pos: *pos,
                scale: *scale,
                max: *max,
                min: *min,
                value: *value,
                id: id@,
            },
            SerdableWidget::Image { path, pos, scale } => WidgetView::Image {
                path: path@,
                pos: *pos,
                scale: *scale,
            },
        }
    }
}

impl DeepView for SerdableWidget {
    type V = WidgetView;

    open spec fn deep_view(&self) -> WidgetView {
        self@
    }
}

/// The widgets of one named screen.
#[derive(Debug, PartialEq, Eq)]
pub struct ScreenLayout {
    pub name: String,
    pub widgets: Vec<SerdableWidget>,
}

/// A layout with its name and its widgets as values.
pub struct ScreenLayoutView {
    pub name: Seq<char>,
    pub widgets: Seq<WidgetView>,
}

impl View for ScreenLayout {
    type V = ScreenLayoutView;

    open spec fn view(&self) -> ScreenLayoutView {
        ScreenLayoutView { name: self.name@, widgets: self.widgets.deep_view() }
    }
}

impl DeepView for ScreenLayout {
    type V = ScreenLayoutView;

    open spec fn deep_view(&self) -> ScreenLayoutView {
        self@
    }
}

/// Layout `j` has the name of a layout that stands before it.
pub open spec fn name_taken_before(layouts: Seq<ScreenLayoutView>, j: int) -> bool {
    exists|i: int| 0 <= i < j && (#[trigger] layouts[i]).name == layouts[j].name
}

/// No name occurs twice.
pub open spec fn names_distinct(layouts: Seq<ScreenLayoutView>) -> bool {
    forall|j: int| 0 <= j < layouts.len() ==> !name_taken_before(layouts, j)
}

/// Layout `j` is the first that repeats a name.
pub open spec fn first_repeated_name(layouts: Seq<ScreenLayoutView>, j: int) -> bool {
    &&& 0 <= j < layouts.len()
    &&& name_taken_before(layouts, j)
    &&& forall|k: int| 0 <= k < j ==> !name_taken_before(layouts, k)
}

/// Layout `i` is the first with the name `name`.
pub open spec fn first_layout(layouts: Seq<ScreenLayoutView>, i: int, name: Seq<char>) -> bool {
    &&& 0 <= i < layouts.len()
    &&& layouts[i].name == name
    &&& forall|k: int| 0 <= k < i ==> (#[trigger] layouts[k]).name != name
}

/// The mapping from names to widgets that a list of layouts stands for.
pub open spec fn screens_of(layouts: Seq<ScreenLayoutView>) -> Map<Seq<char>, Seq<WidgetView>> {
    Map::new(
        |name: Seq<char>| exists|i: int| first_layout(layouts, i, name),
        |name: Seq<char>| layouts[choose|i: int| first_layout(layouts, i, name)].widgets,
    )
}

/// The widgets of the screen `name`, if there is such a screen.
pub open spec fn widgets_of(screens: Map<Seq<char>, Seq<WidgetView>>, name: Seq<char>) -> Option<
    Seq<WidgetView>,
> {
    if screens.dom().contains(name) {
        Some(screens[name])
    } else {
        None
    }
}

/// The named screens of the shell: a mapping from the name of a screen to
/// its widgets, held as a list of layouts in which no name occurs twice.
#[derive(Debug, PartialEq, Eq)]
pub struct Screen {
    widget: Vec<ScreenLayout>,
}

impl View for Screen {
    type V = Map<Seq<char>, Seq<WidgetView>>;

    closed spec fn view(&self) -> Map<Seq<char>, Seq<WidgetView>> {
        screens_of(self.widget.deep_view())
    }
}

impl Screen {
    #[verifier::type_invariant]
    closed spec fn inv(self) -> bool {
        names_distinct(self.widget.deep_view())
    }

    /// Builds the screens from their layouts. They are refused where a name
    /// occurs twice, and the fault gives the first name that is repeated.
    pub fn from_layouts(layouts: Vec<ScreenLayout>) -> (r: Result<Screen, ShellError>)
        ensures
            match r {
                Ok(screen) => names_distinct(layouts.deep_view()) && screen@ == screens_of(
                    layouts.deep_view(),
                ),
                Err(fault) => exists|j: int|
                    first_repeated_name(layouts.deep_view(), j) && fault@
                        == (ShellErrorView::DuplicateScreen {
                        name: (#[trigger] layouts.deep_view()[j]).name,
                    }),
            },
    {
        let n = layouts.len();
        let ghost list = layouts.deep_view();
        let mut j: usize = 0;
        while j < n
            invariant
                j <= n,
                n == layouts.len(),
                list == layouts.deep_view(),
                forall|k: int| 0 <= k < j ==> !name_taken_before(list, k),
            decreases n - j,
        {
            let mut i: usize = 0;
            while i < j
                invariant
                    i <= j,
                    j < n,
                    n == layouts.len(),
                    list == layouts.deep_view(),
                    forall|k: int| 0 <= k < j ==> !name_taken_before(list, k),
                    forall|k: int| 0 <= k < i ==> (#[trigger] list[k]).name != list[j as int].name,
                decreases j - i,
            {
                if layouts[i].name == layouts[j].name {
                    let fault = ShellError::DuplicateScreen { name: layouts[j].name.clone() };
                    proof {
                        assert(list[i as int].name == list[j as int].name);
                    }
                    return Err(fault);
                }
                i += 1;
            }
            j += 1;
        }
        Ok(Screen { widget: layouts })
    }

    /// Gives the layouts back. Building the screens from them again gives the
    /// same screens.
    pub fn into_layouts(self) -> (layouts: Vec<ScreenLayout>)
        ensures
            names_distinct(layouts.deep_view()),
            screens_of(layouts.deep_view()) == self@,
    {
        proof {
            use_type_invariant(&self);
        }
        self.widget
    }

    /// The widgets of the screen `name`, if there is such a screen.
    pub fn widgets(&self, name: &str) -> (found: Option<&Vec<SerdableWidget>>)
        ensures
            found.deep_view() == widgets_of(self@, name@),
    {
        let wanted = name.to_owned();
        let ghost layouts = self.widget.deep_view();
        let n = self.widget.len();
        let mut i: usize = 0;
        while i < n
            invariant
                i <= n,
                n == self.widget.len(),
                layouts == self.widget.deep_view(),
                wanted@ == name@,
                forall|k: int| 0 <= k < i ==> (#[trigger] layouts[k]).name != name@,
            decreases n - i,
        {
            if self.widget[i].name == wanted {
                proof {
                    assert(first_layout(layouts, i as int, name@));
                }
                return Some(&self.widget[i].widgets);
            }
            i += 1;
        }
        None
    }
}

/// The manifest: the title, the chapters and the screens.
#[derive(Debug, PartialEq, Eq)]
pub struct FramegEntry {
    pub name: String,
    pub stories: StoryStore,
    pub screen: Screen,
}

/// What the shell shows.
#[derive(Debug, PartialEq, Eq, Clone)]
pub struct GameState {
    pub rendering_screen_name: String,
}

/// What the caller owes after an update.
#[derive(Debug, PartialEq, Eq, Clone, Copy)]
pub enum Effect {
    /// Nothing.
    Idle,
    /// The window is to be closed.
    CloseWindow,
    /// The settings changed and are to be persisted.
    SaveConfig,
}

/// A request that the shell cannot serve.
#[derive(Debug, PartialEq, Eq, Clone)]
pub enum ShellError {
    /// No screen has the name `name`.
    UnknownScreen { name: String },
    /// Widgets reach no setting under the key `id`.
    UnknownConfigKey { id: String },
    /// Two screens have the name `name`.
    DuplicateScreen { name: String },
}

/// A refusal with its texts as sequences of characters.
pub enum ShellErrorView {
    UnknownScreen { name: Seq<char> },
    UnknownConfigKey { id: Seq<char> },
    DuplicateScreen { name: Seq<char> },
}

impl View for ShellError {
    type V = ShellErrorView;

    open spec fn view(&self) -> ShellErrorView {
        match self {
            ShellError::UnknownScreen { name } => ShellErrorView::UnknownScreen { name: name@ },
            ShellError::UnknownConfigKey { id } => ShellErrorView::UnknownConfigKey { id: id@ },
            ShellError::DuplicateScreen { name } => ShellErrorView::DuplicateScreen {
                name: name@,
            },
        }
    }
}

impl DeepView for ShellError {
    type V = ShellErrorView;

    open spec fn deep_view(&self) -> ShellErrorView {
        self@
    }
}

/// A widget to put up: a button with its label and message, or a slider
/// with its range and the setting it shows. Images are not put up.
#[derive(Debug, PartialEq, Eq, Clone, Copy)]
pub enum WidgetPlan<'a> {
    Button { text: &'a String, scale: FloatPair, action: &'a GameMessage },
    Slider { min: i32, max: i32, value: i32, id: &'a String, scale: FloatPair },
}

/// A planned widget with its texts as sequences of characters.
pub enum WidgetPlanView {
    Button { text: Seq<char>, scale: FloatPair, action: GameMessageView },
    Slider { min: i32, max: i32, value: i32, id: Seq<char>, scale: FloatPair },
}

impl<'a> View for WidgetPlan<'a> {
    type V = WidgetPlanView;

    open spec fn view(&self) -> WidgetPlanView {
        match self {
            WidgetPlan::Button { text, scale, action } => WidgetPlanView::Button {
                text: text@,
                scale: *scale,
                action: action@,
            },
            WidgetPlan::Slider { min, max, value, id, scale } => WidgetPlanView::Slider {
                min: *min,
                max: *max,
                value: *value,
                id: id@,
                scale: *scale,
            },
        }
    }
}

impl<'a> DeepView for WidgetPlan<'a> {
    type V = WidgetPlanView;

    open spec fn deep_view(&self) -> WidgetPlanView {
        self@
    }
}

/// What is put up for the widgets of a screen, in their order: each button,
/// and each slider with the setting under its key. The first slider whose
/// key reaches no setting is a fault.
pub open spec fn plan_of(widgets: Seq<WidgetView>, config: Config) -> Result<
    Seq<WidgetPlanView>,
    ShellErrorView,
>
    decreases widgets.len(),
{
    if widgets.len() == 0 {
        Ok(Seq::empty())
    } else {
        match plan_of(widgets.drop_last(), config) {
            Err(fault) => Err(fault),
            Ok(front) => match widgets.last() {
                WidgetView::Button { pos, scale, action, text } => Ok(
                    front.push(WidgetPlanView::Button { text, scale, action }),
                ),
                WidgetView::Slider { pos, scale, max, min, value, id } => match config_value(
                    config,
                    id,
                ) {
                    Some(setting) => Ok(
                        front.push(WidgetPlanView::Slider { min, max, value: setting, id, scale }),
                    ),
                    None => Err(ShellErrorView::UnknownConfigKey { id }),
                },
                WidgetView::Image { path, pos, scale } => Ok(front),
            },
        }
    }
}

/// The view of a result of the shell.
pub open spec fn shell_result_view<T: DeepView>(r: Result<T, ShellError>) -> Result<
    T::V,
    ShellErrorView,
> {
    match r {
        Ok(value) => Ok(value.deep_view()),
        Err(fault) => Err(fault@),
    }
}

/// The running shell: the manifest, the settings and what is shown.
#[derive(Debug, PartialEq, Eq)]
pub struct FramegInstance {
    pub entry: FramegEntry,
    pub config: Config,
    pub state: GameState,
}

impl FramegInstance {
    /// A shell that shows the main menu.
    pub fn new(entry: FramegEntry, config: Config) -> (instance: FramegInstance)
        ensures
            instance.entry == entry,
            instance.config == config,
            instance.state.rendering_screen_name@ == "main_menu"@,
    {
        let state = GameState { rendering_screen_name: "main_menu".to_owned() };
        FramegInstance { entry, config, state }
    }

    /// Applies a message and says what the caller owes.
    ///
    /// `Exit` asks for the window to be closed. `Screen` shows the named
    /// screen. `ConfigValueChange` changes the setting under its key and asks
    /// for the settings to be persisted; a key that reaches no setting is a
    /// fault and changes nothing.
    pub fn update(&mut self, message: GameMessage) -> (r: Result<Effect, ShellError>)
        ensures
            final(self).entry == old(self).entry,
            match message {
                GameMessage::Exit => {
                    &&& r == Ok::<Effect, ShellError>(Effect::CloseWindow)
                    &&& *final(self) == *old(self)
                },
                GameMessage::Screen { id } => {
                    &&& r == Ok::<Effect, ShellError>(Effect::Idle)
                    &&& final(self).state.rendering_screen_name@ == id@
                    &&& final(self).config == old(self).config
                },
                GameMessage::ConfigValueChange { id, value } => match config_with(
                    old(self).config,
                    id@,
                    value,
                ) {
                    Some(changed) => {
                        &&& r == Ok::<Effect, ShellError>(Effect::SaveConfig)
                        &&& final(self).config == changed
                        &&& final(self).state == old(self).state
                    },
                    None => {
                        &&& r matches Err(fault)
                        &&& fault@ == (ShellErrorView::UnknownConfigKey { id: id@ })
                        &&& *final(self) == *old(self)
                    },
                },
            },
    {
        match message {
            GameMessage::Exit => Ok(Effect::CloseWindow),
            GameMessage::Screen { id } => {
                self.state.rendering_screen_name = id;
                Ok(Effect::Idle)
            },
            GameMessage::ConfigValueChange { id, value } => {
                if self.config.set(id.as_str(), value) {
                    Ok(Effect::SaveConfig)
                } else {
                    Err(ShellError::UnknownConfigKey { id })
                }
            },
        }
    }

    /// What is put up for the screen that is shown: its buttons and sliders
    /// in their order, each slider with the setting it shows. A screen that
    /// does not exist is a fault, and so is a slider whose key reaches no
    /// setting.
    pub fn view(&self) -> (r: Result<Vec<WidgetPlan<'_>>, ShellError>)
        ensures
            shell_result_view(r) == match widgets_of(
                self.entry.screen@,
                self.state.rendering_screen_name@,
            ) {
                Some(widgets) => plan_of(widgets, self.config),
                None => Err(
                    ShellErrorView::UnknownScreen { name: self.state.rendering_screen_name@ },
                ),
            },
    {
        let widgets = match self.entry.screen.widgets(self.state.rendering_screen_name.as_str()) {
            Some(widgets) => widgets,
            None => {
                return Err(
                    ShellError::UnknownScreen { name: self.state.rendering_screen_name.clone() },
                );
            },
        };
        let ghost all = widgets.deep_view();
        let mut out: Vec<WidgetPlan<'_>> = Vec::new();
        let n = widgets.len();
        let mut i: usize = 0;
        assert(out.deep_view() =~= Seq::empty());
        while i < n
            invariant
                i <= n,
                n == widgets.len(),
                all == widgets.deep_view(),
                widgets_of(self.entry.screen@, self.state.rendering_screen_name@) == Some(all),
                plan_of(all.take(i as int), self.config) == Ok::<
                    Seq<WidgetPlanView>,
                    ShellErrorView,
                >(out.deep_view()),
            decreases n - i,
        {
            let ghost prior = out.deep_view();
            proof {
                assert(all.take(i + 1).drop_last() =~= all.take(i as int));
            }
            match &widgets[i] {
                SerdableWidget::Button { pos, scale, action, text } => {
                    let item = WidgetPlan::Button { text, scale: *scale, action };
                    out.push(item);
                    assert(out.deep_view() =~= prior.push(item@));
                },
                SerdableWidget::Slider { pos, scale, max, min, value, id } => {
                    match self.config.get(id.as_str()) {
                        Some(setting) => {
                            let item = WidgetPlan::Slider {
                                min: *min,
                                max: *max,
                                value: setting,
                                id,
                                scale: *scale,
                            };
                            out.push(item);
                            assert(out.deep_view() =~= prior.push(item@));
                        },
                        None => {
                            proof {
                                lemma_plan_fault(all, self.config, i as int);
                            }
                            return Err(ShellError::UnknownConfigKey { id: id.clone() });
                        },
                    }
                },
                SerdableWidget::Image { path, pos, scale } => {},
            }
            i += 1;
        }
        proof {
            assert(all.take(n as int) =~= all);
        }
        Ok(out)
    }
}

/// A fault among the first widgets of a screen is the fault of the screen.
pub proof fn lemma_plan_fault(widgets: Seq<WidgetView>, config: Config, i: int)
    requires
        0 <= i < widgets.len(),
        plan_of(widgets.take(i + 1), config) is Err,
    ensures
        plan_of(widgets, config) == plan_of(widgets.take(i + 1), config),
    decreases widgets.len(),
{
    if i + 1 == widgets.len() {
        assert(widgets.take(i + 1) =~= widgets);
    } else {
        assert(widgets.drop_last().take(i + 1) =~= widgets.take(i + 1));
        lemma_plan_fault(widgets.drop_last(), config, i);
    }
}

} // verus!
