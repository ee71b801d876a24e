//! What a request asks of the generating agent beyond its words: the theme it
//! names, and the short directive sent with follow-up requests.
use vstd::prelude::*;
use crate::levels::Level;
use crate::scan::opt_view;
use crate::text::{chars_of, contains, find_str, push_str, string_of, vec_eq};

verus! {

// ---------------------------------------------------------------------------
// Themes
// ---------------------------------------------------------------------------

/// What `str::to_lowercase` gives for a text (Unicode case mapping).
pub uninterp spec fn lowercase_of(s: Seq<char>) -> Seq<char>;

/// std's `str::to_lowercase`. Its result is named by `lowercase_of`, a
/// function of the argument alone; nothing more of the Unicode mapping is
/// stated.
#[verifier::external_body]
pub(crate) fn str_to_lowercase(s: &str) -> (r: String)
    ensures
        r@ == lowercase_of(s@),
{
    s.to_lowercase()
}

/// Words asking for the glass look (including 毛玻璃, 玻璃).
pub open spec fn glass_words() -> Seq<Seq<char>> {
    seq!["glass"@, "vibrant"@, "gradient"@, "\u{6bdb}\u{73bb}\u{7483}"@, "\u{73bb}\u{7483}"@]
}

/// Words asking for the light look (including 简约, 浅色); a bare `light` is
/// not one, so "light rain" stays a weather word.
pub open spec fn light_words() -> Seq<Seq<char>> {
    seq![
        "minimal"@,
        "\u{7b80}\u{7ea6}"@,
        "\u{6d45}\u{8272}"@,
        "light mode"@,
        "light theme"@,
        "light style"@,
        "clean"@,
    ]
}

/// Words asking for the dark look (including 深色).
pub open spec fn dark_words() -> Seq<Seq<char>> {
    seq!["dark"@, "\u{6df1}\u{8272}"@]
}

/// Words asking for the photo look (including 大图).
pub open spec fn photo_words() -> Seq<Seq<char>> {
    seq!["immersive"@, "photo"@, "\u{5927}\u{56fe}"@]
}

/// `q` contains one of `words`.
pub open spec fn mentions_any(q: Seq<char>, words: Seq<Seq<char>>) -> bool {
    exists|k: int| 0 <= k < words.len() && contains(q, #[trigger] words[k])
}

/// The theme a lower-cased request names, checked in the order glass, light,
/// dark, photo.
pub open spec fn theme_word_spec(q: Seq<char>) -> Option<Seq<char>> {
    if mentions_any(q, glass_words()) {
        Some("glass"@)
    } else if mentions_any(q, light_words()) {
        Some("light"@)
    } else if mentions_any(q, dark_words()) {
        Some("dark"@)
    } else if mentions_any(q, photo_words()) {
        Some("photo"@)
    } else {
        None
    }
}

pub open spec fn str_views(v: Seq<&'static str>) -> Seq<Seq<char>> {
    v.map_values(|w: &'static str| w@)
}

fn mentions_any_vec(q: &Vec<char>, words: &Vec<&'static str>) -> (r: bool)
    ensures
        r == mentions_any(q@, str_views(words@)),
{
    let mut i: usize = 0;
    while i < words.len()
        invariant
            i <= words.len(),
            forall|k: int| 0 <= k < i ==> !contains(q@, #[trigger] str_views(words@)[k]),
        decreases words.len() - i,
    {
        if find_str(q, words[i], 0).is_some() {
            assert(contains(q@, str_views(words@)[i as int]));
            return true;
        }
        i += 1;
    }
    false
}

/// The theme a lower-cased request names: `glass`, `light`, `dark` or
/// `photo`, or `None`.
pub fn theme_word(q: &str) -> (r: Option<&'static str>)
    ensures
        match r {
            Some(w) => theme_word_spec(q@) == Some(w@),
            None => theme_word_spec(q@) is None,
        },
{
    let t = chars_of(q);
    let glass = vec!["glass", "vibrant", "gradient", "\u{6bdb}\u{73bb}\u{7483}", "\u{73bb}\u{7483}"];
    assert(str_views(glass@) =~= glass_words());
    if mentions_any_vec(&t, &glass) {
        return Some("glass");
    }
    let light = vec![
        "minimal",
        "\u{7b80}\u{7ea6}",
        "\u{6d45}\u{8272}",
        "light mode",
        "light theme",
        "light style",
        "clean",
    ];
    assert(str_views(light@) =~= light_words());
    if mentions_any_vec(&t, &light) {
        return Some("light");
    }
    let dark = vec!["dark", "\u{6df1}\u{8272}"];
    assert(str_views(dark@) =~= dark_words());
    if mentions_any_vec(&t, &dark) {
        return Some("dark");
    }
    let photo = vec!["immersive", "photo", "\u{5927}\u{56fe}"];
    assert(str_views(photo@) =~= photo_words());
    if mentions_any_vec(&t, &photo) {
        return Some("photo");
    }
    None
}

/// The theme a request names, matched on the request lower-cased (a name
/// the card's catalog must still admit before it is offered).
pub fn detect_theme(intent: &str) -> (r: Option<&'static str>)
    ensures
        match r {
            Some(w) => theme_word_spec(lowercase_of(intent@)) == Some(w@),
            None => theme_word_spec(lowercase_of(intent@)) is None,
        },
{
    let q = str_to_lowercase(intent);
    theme_word(q.as_str())
}

// ---------------------------------------------------------------------------
// Follow-up requests
// ---------------------------------------------------------------------------

/// The directive sent ahead of a follow-up request in a session that has
/// already been given the Splash manual.
pub const FOLLOWUP_DIRECTIVE: &'static str = "Respond with EXACTLY ONE ```runsplash fenced block (Makepad Splash syntax, no prose, no other fences), following the Splash manual already provided earlier in this conversation. Same rules: no imports, no Root/Window wrapper. FIRST line inside the block = `// name: <slug>` (reuse the same name when refining one of YOUR SAVED CARDS below). Each card has its OWN state: read `{{state.<key>}}`; change it with `agent.notify(\"inc\"/\"dec\"/\"reset\", {key: \"count\"})` for numbers or `agent.notify(\"set\", {key, value})` for strings. Internet images: `Image{ src: http_resource(\"https://\u{2026}\") fit: ImageFit.Smallest }`; refreshable = cache-buster `?sig={{state.count}}` + a button that does `inc`. CRITICAL: begin DIRECTLY with a single root container widget (e.g. `RoundedView{`) \u{2014} NO top-level `let X = \u{2026}` component definitions (inline/repeat instead); a leading `let` fails to render.\n\nUser request: ";

/// The follow-up request: the directive, then the user's words.
pub fn app_splash_followup(request: &str) -> (r: String)
    ensures
        r@ == FOLLOWUP_DIRECTIVE@ + request@,
{
    let mut out = chars_of(FOLLOWUP_DIRECTIVE);
    push_str(&mut out, request);
    string_of(&out)
}

/// The Splash-mode generation directive: the hard rules, the worked
/// immersive weather card, and the style rules, ahead of the Splash manual.
pub const SPLASH_PROMPT_HEAD: &'static str = "You are a UI-generation agent. Respond with EXACTLY ONE ```runsplash fenced code block containing Makepad Splash syntax — no prose before, between, or after it, and no other fenced blocks.\n\nHard rules:\n- `use mod.prelude.widgets.*` is auto-prepended; do NOT write imports.\n- NAME the card: the FIRST line inside the block is `// name: <short-kebab-slug>` (a unique, descriptive, STABLE id — e.g. `weather-sf`, `stocks-watchlist`). It is stripped before rendering. If you are refining a card from YOUR SAVED CARDS below, REUSE its exact same name.\n- Do NOT wrap output in Root{} or Window{}; it is inserted into an existing container.\n- Interactivity + state: each card has its OWN independent state (keys you choose). Read a value with `{{state.<key>}}` inside a string; change it from a button. Events: `inc`/`dec`/`reset` adjust a NUMERIC key, `set` stores a string. The payload names the key (default key is `count`):\nButton{ text: \"+1\" on_click: || agent.notify(\"inc\", {key: \"count\"}) }\nLabel{ text: \"Count: {{state.count}}\" }\nButton{ text: \"Happy\" on_click: || agent.notify(\"set\", {key: \"mood\", value: \"happy\"}) }\n- Internet images: fetch a remote picture with `http_resource` in an Image widget (downloads asynchronously, appears when ready). Use a real, publicly-reachable HTTPS URL (png/jpg/webp/svg):\nImage{ src: http_resource(\"https://picsum.photos/400/240\") fit: ImageFit.Smallest width: Fill height: 180 }\nFor a REFRESHABLE image, bake the base URL literally and vary ONLY a cache-buster query param bound to a counter, plus a button that increments it — each tap loads a new picture (never put `{{state.*}}` as the WHOLE url):\nImage{ src: http_resource(\"https://picsum.photos/400/240?sig={{state.count}}\") fit: ImageFit.Smallest width: Fill height: 180 }\nButton{ text: \"New Photo\" on_click: || agent.notify(\"inc\", {}) }\n- IMMERSIVE FULL-SCREEN iOS WEATHER CARD (the DEFAULT for weather): a REAL photo of the city fills the whole screen; the CURRENT conditions sit at the top, a translucent 7-DAY FORECAST panel sits directly below them, then TWO FULL-WIDTH MAP PANES stacked vertically — first a LIVE 卫星云图 (real satellite cloud imagery), then a LIVE 空气质量图 (air-quality map) — each on its own row so the maps read large, then a frosted 6-TILE DETAIL GRID (air quality, UV, sunrise, sunset, humidity, wind) — like a refined iOS Weather app. Reproduce this EXACT structure (a full-screen Overlay: photo, dark scrim, then a Down column = current block, the 7-day forecast, the two map panes, then the detail grid), substituting real, plausible data:\nSolidView{ width: Fill height: 1500 flow: Overlay new_batch: true draw_bg.color: #000000\nImage{ src: http_resource(sys.photo(\"tokyo skyline clear sky\")) fit: ImageFit.CropToFill width: Fill height: Fill }\nGradientYView{ width: Fill height: Fill new_batch: true draw_bg.color: #00000022 draw_bg.color_2: #000000EE }\nView{ width: Fill height: Fill flow: Down padding: Inset{left: 22 top: 6 right: 22 bottom: 8} spacing: 2\nLabel{ text: \"Tokyo\" draw_text.color: #ffffff draw_text.text_style.font_size: 30 }\nLabel{ text: \"72°\" draw_text.color: #ffffff draw_text.text_style.font_size: 50 margin: Inset{top: 2 bottom: 0} }\nView{ width: Fill height: 60 flow: Right align: Align{y: 0.5} spacing: 10\nWeatherIcon{ draw_bg.cond: 0.0 width: 60 height: 60 }\nLabel{ text: \"Sunny\" draw_text.color: #ffffff draw_text.text_style.font_size: 20 }\n}\nLabel{ text: \"H:78°   L:64°   Feels 74°\" draw_text.color: #ffffffcc draw_text.text_style.font_size: 14 }\nRoundedView{ width: Fill height: Fit flow: Down spacing: 0 new_batch: true padding: Inset{left: 16 top: 2 right: 16 bottom: 2} draw_bg.color: #00000055 draw_bg.border_radius: 20.0\nSolidView{ width: Fill height: 40 flow: Right align: Align{y: 0.5} new_batch: true padding: Inset{top: 0 bottom: 0} draw_bg.color: #00000000\nLabel{ width: 92 text: \"Today\" draw_text.color: #ffffff draw_text.text_style.font_size: 14 }\nLabel{ width: 34 text: \"☀️\" draw_text.text_style.font_size: 14 }\nFiller{}\nLabel{ text: \"64°\" draw_text.color: #ffffff88 draw_text.text_style.font_size: 14 }\nLabel{ width: 48 text: \"78°\" draw_text.color: #ffffff draw_text.text_style.font_size: 14 }\n}\nSolidView{ width: Fill height: 40 flow: Right align: Align{y: 0.5} new_batch: true padding: Inset{top: 0 bottom: 0} draw_bg.color: #00000000\nLabel{ width: 92 text: \"Mon\" draw_text.color: #ffffff draw_text.text_style.font_size: 14 }\nLabel{ width: 34 text: \"⛅\" draw_text.text_style.font_size: 14 }\nFiller{}\nLabel{ text: \"61°\" draw_text.color: #ffffff88 draw_text.text_style.font_size: 14 }\nLabel{ width: 48 text: \"75°\" draw_text.color: #ffffff draw_text.text_style.font_size: 14 }\n}\n// …repeat that SolidView row for 7 DAYS total (Today, then the next six day names Tue Wed Thu Fri Sat Sun), each with its own weather emoji and lo/hi.\n}\nRoundedView{ width: Fill height: Fit flow: Down spacing: 3 new_batch: true padding: Inset{left: 6 top: 6 right: 6 bottom: 6} draw_bg.color: #000000aa draw_bg.border_radius: 16.0\nImage{ src: http_resource(sys.satellite(35.68, 139.65)) fit: ImageFit.CropToFill width: Fill height: 190 }\nLabel{ text: \"卫星云图\" draw_text.color: #ffffffcc draw_text.text_style.font_size: 11 }\n}\nRoundedView{ width: Fill height: Fit flow: Down spacing: 3 new_batch: true padding: Inset{left: 6 top: 6 right: 6 bottom: 6} draw_bg.color: #000000aa draw_bg.border_radius: 16.0\nView{ width: Fill height: 190 flow: Overlay\nImage{ src: http_resource(sys.basemap(35.68, 139.65)) fit: ImageFit.CropToFill width: Fill height: 190 }\nImage{ src: http_resource(sys.airmap(35.68, 139.65)) fit: ImageFit.CropToFill width: Fill height: 190 }\n}\nLabel{ text: \"空气质量图\" draw_text.color: #ffffffcc draw_text.text_style.font_size: 11 }\n}\nView{ width: Fill height: Fit flow: Down spacing: 2\nView{ width: Fill height: Fit flow: Right spacing: 8\nRoundedView{ width: Fill height: Fit flow: Down spacing: 1 new_batch: true padding: Inset{left: 14 top: 8 right: 14 bottom: 8} draw_bg.color: #ffffff1f draw_bg.border_radius: 18.0\nLabel{ text: \"AIR QUALITY\" draw_text.color: #ffffff99 draw_text.text_style.font_size: 11 }\nLabel{ text: \"42\" draw_text.color: #32d74b draw_text.text_style.font_size: 20 }\nLabel{ text: \"Good\" draw_text.color: #ffffffcc draw_text.text_style.font_size: 12 }\n}\nRoundedView{ width: Fill height: Fit flow: Down spacing: 1 new_batch: true padding: Inset{left: 14 top: 8 right: 14 bottom: 8} draw_bg.color: #ffffff1f draw_bg.border_radius: 18.0\nLabel{ text: \"UV INDEX\" draw_text.color: #ffffff99 draw_text.text_style.font_size: 11 }\nLabel{ text: \"5\" draw_text.color: #ffffff draw_text.text_style.font_size: 20 }\nLabel{ text: \"Moderate\" draw_text.color: #ffffffcc draw_text.text_style.font_size: 12 }\n}\n}\nView{ width: Fill height: Fit flow: Right spacing: 8\nRoundedView{ width: Fill height: Fit flow: Down spacing: 1 new_batch: true padding: Inset{left: 14 top: 8 right: 14 bottom: 8} draw_bg.color: #ffffff1f draw_bg.border_radius: 18.0\nLabel{ text: \"SUNRISE\" draw_text.color: #ffffff99 draw_text.text_style.font_size: 11 }\nLabel{ text: \"5:42 AM\" draw_text.color: #ffffff draw_text.text_style.font_size: 20 }\nLabel{ text: \"🌅 Dawn\" draw_text.color: #ffffffcc draw_text.text_style.font_size: 12 }\n}\nRoundedView{ width: Fill height: Fit flow: Down spacing: 1 new_batch: true padding: Inset{left: 14 top: 8 right: 14 bottom: 8} draw_bg.color: #ffffff1f draw_bg.border_radius: 18.0\nLabel{ text: \"SUNSET\" draw_text.color: #ffffff99 draw_text.text_style.font_size: 11 }\nLabel{ text: \"6:58 PM\" draw_text.color: #ffffff draw_text.text_style.font_size: 20 }\nLabel{ text: \"🌇 Dusk\" draw_text.color: #ffffffcc draw_text.text_style.font_size: 12 }\n}\n}\nView{ width: Fill height: Fit flow: Right spacing: 8\nRoundedView{ width: Fill height: Fit flow: Down spacing: 1 new_batch: true padding: Inset{left: 14 top: 8 right: 14 bottom: 8} draw_bg.color: #ffffff1f draw_bg.border_radius: 18.0\nLabel{ text: \"HUMIDITY\" draw_text.color: #ffffff99 draw_text.text_style.font_size: 11 }\nLabel{ text: \"64%\" draw_text.color: #ffffff draw_text.text_style.font_size: 20 }\nLabel{ text: \"Dew point 58°\" draw_text.color: #ffffffcc draw_text.text_style.font_size: 12 }\n}\nRoundedView{ width: Fill height: Fit flow: Down spacing: 1 new_batch: true padding: Inset{left: 14 top: 8 right: 14 bottom: 8} draw_bg.color: #ffffff1f draw_bg.border_radius: 18.0\nLabel{ text: \"WIND\" draw_text.color: #ffffff99 draw_text.text_style.font_size: 11 }\nLabel{ text: \"8 mph\" draw_text.color: #ffffff draw_text.text_style.font_size: 20 }\nLabel{ text: \"NW\" draw_text.color: #ffffffcc draw_text.text_style.font_size: 12 }\n}\n}\n}\n}\n}\nRULES: the background Image MUST use `fit: ImageFit.CropToFill` (fills the whole box, cropping overflow — a true edge-to-edge photo). NEVER use Smallest/Biggest/Vertical/Horizontal on it: those size the photo to its own aspect and leave bare letterbox bands. The ROOT Overlay container and the Image MUST have NO `padding` and NO `margin` — an Overlay child's Fill height = parent height MINUS parent padding MINUS its own margin, so ANY inset there SHRINKS the photo and exposes bare background. Put ALL insets (the top: 44 status-bar clearance, side and bottom padding) ONLY on the inner `flow: Down` column, exactly as in the template. STRUCTURE top-to-bottom: (1) a CURRENT block — city (font 30), the hero temperature ALONE on its line (font 60, `margin: Inset{top: 6 bottom: 0}` so its tall glyphs are not clipped), then a `flow: Right` row (height 60, align y 0.5, spacing 10) holding an ANIMATED `WeatherIcon{ draw_bg.cond: <N> width: 60 height: 60 }` followed by the condition `Label` (font 20) — `WeatherIcon` is a live shader-animated weather glyph (rays rotate, rain/snow falls, wind/fog drifts, lightning flashes); pick `draw_bg.cond` by CURRENT condition: 0 clear/sunny, 1 partly cloudy, 2 cloudy/overcast, 3 rain/drizzle, 4 thunderstorm, 5 snow, 6 wind, 7 fog/haze/mist. Then `H:__°   L:__°   Feels __°` (font 15, #ffffffcc); (2) a 7-DAY FORECAST directly under the current block (this comes BEFORE the detail grid) — a translucent RoundedView (draw_bg.color #00000055, border_radius 20) with ONE SolidView row per day, EACH ROW a FIXED `height: 40` (roomy iOS-style rows; the fixed height still clips color-emoji line-box inflation so rows stay uniform): day name width 92 (font 14), a weather EMOJI width 34 (☀️ sunny, ⛅ partly, ☁️ cloudy, 🌧️ rain, ⛈️ storm, ❄️ snow), a Filler, then lo° dim (#ffffff88) and hi° white width 48, all font 14. Give SEVEN rows: Today, then the next six days by name; (3) TWO FULL-WIDTH MAP PANES, stacked vertically (NOT side by side — each pane is its own row so the maps read large), each a `width: Fill` RoundedView (draw_bg.color #000000aa, border_radius 16, flow: Down): the FIRST pane is the 卫星云图 — REAL satellite cloud imagery — `Image{ src: http_resource(sys.satellite(LAT, LON)) fit: ImageFit.CropToFill width: Fill height: 190 }` (sys.satellite(LAT, LON) takes the city's real lat/lon, SAME as the air map below) + a `卫星云图` caption (font 11, #ffffffcc); the SECOND pane is the LIVE 空气质量图 air-quality map — a `height: 190 flow: Overlay` View stacking `Image{ src: http_resource(sys.basemap(LAT, LON)) fit: ImageFit.CropToFill width: Fill height: 190 }` UNDER `Image{ src: http_resource(sys.airmap(LAT, LON)) fit: ImageFit.CropToFill width: Fill height: 190 }` (fixed height, NOT Fill — Fill inside an Overlay wrongly resolves to the whole card) — pass the CITY's real decimal LAT, LON (e.g. Tokyo 35.68, 139.65; both maps take the SAME lat/lon) — + a `空气质量图` caption (font 11, #ffffffcc); (4) a DETAIL GRID below the map panes — a `flow: Down` View of THREE `flow: Right` rows, each holding TWO equal frosted tiles (`width: Fill`). Every tile is a RoundedView (draw_bg.color #ffffff1f, border_radius 18) stacking an UPPERCASE caption (font 11, #ffffff99), a big value (font 20), and a sub-line (font 12, #ffffffcc). The SIX tiles in order: AIR QUALITY (value = the AQI NUMBER; set its `draw_text.color` by category — Good #32d74b, Moderate #ffd60a, Unhealthy #ff9f0a, Very Unhealthy #ff453a — and put the category word in the sub-line), UV INDEX (a 0–11 value; sub Low/Moderate/High/Very High), SUNRISE (a clock time; sub `🌅 Dawn`), SUNSET (a clock time; sub `🌇 Dusk`), HUMIDITY (a percent; sub `Dew point __°`), WIND (e.g. `8 mph`; sub the compass direction like `NW`). The WHOLE inner column is a TALL, VERTICALLY-SCROLLING page (~1500dp) — it does NOT need to fit one screen; the user DRAGS to scroll down and reveal the forecast, the maps row and the detail grid, so use comfortable, breathable spacing rather than cramming everything in. Image: `sys.photo(\"<city> <scene/weather>\")` matching the actual conditions.\n- Keep it self-contained and visually clean (padding, spacing, rounded containers, readable labels).\n- CRITICAL OVERRIDE (takes precedence over the manual's `let` examples): the block MUST BEGIN DIRECTLY with a single root container widget — e.g. `RoundedView{` or `View{`. Do NOT start with, or use, any top-level `let X = …` component definitions. Inline/repeat any shared structure directly, even if it makes the output longer. A leading `let` will fail to render.\n- NO custom shaders/MPSL: never write `pixel: fn`, `fn(`, `let`, `mut`, `Sdf2d`, `uniform(`, `instance(`, or `.mix(` inside `draw_bg` — they crash the WHOLE card into ugly raw source. WIDGET-PROPERTY RULES (setting a property a widget does not have ALSO crashes the card): a ROUNDED card is `RoundedView{ draw_bg.color: #hex draw_bg.border_radius: 20.0 }` (solid fill, supports border_radius). A GRADIENT is `GradientYView{ draw_bg.color: #topHex draw_bg.color_2: #botHex }` (vertical; `GradientXView` = horizontal) — it is a full-width RECTANGLE and has NO border_radius, so NEVER put `border_radius` on a Gradient*View. Pick one per container; don't mix. Style ONLY with: draw_bg.color, draw_bg.color_2 (gradient views only), draw_bg.border_radius (rounded views only), draw_text.color, draw_text.text_style.font_size.\n- iOS REFINEMENT (make it look like a real iOS app): prefer `RoundedShadowView{ draw_bg.color: #hex draw_bg.border_radius: 24.0 draw_bg.shadow_color: #00000055 draw_bg.shadow_offset: vec2(0.0, 8.0) draw_bg.shadow_radius: 24.0 margin: 14 }` as the CARD container — rounded corners + a soft iOS drop shadow (it DOES support border_radius; keep a `margin` so the shadow has room). WRAP long text: any headline/sentence Label MUST set `width: Fill` so it wraps to multiple lines instead of clipping. Size hierarchy via font_size: hero value 52-72 (a very large number like a temperature MUST have `margin: Inset{top: 10 bottom: 6}` and its OWN line, or its tall glyph tops get clipped by the label above it), title 16-18, row 15, caption 12-13; make secondary text translucent `draw_text.color: #ffffff99` (or `#8e8e93` on light cards). Hairline row dividers: `SolidView{ width: Fill height: 1 draw_bg.color: #ffffff14 }`. iOS system colors: blue #0a84ff, red #ff453a, green #32d74b, dark card #1c1c1e, light card #f2f2f7. Generous, consistent padding (18-24) and spacing (10-14).\n- LIVE DATA: you may fetch real data with a web tool, but it reliably returns only SIMPLE single-endpoint sources — e.g. weather `https://wttr.in/<City>?format=j1`. Multi-request or big-JSON APIs (stock quotes, news lists) usually FAIL; if the user did not supply those numbers, ask for them — never invent live prices or headlines.\n- ITERATE: if the user asks to refine a card you built earlier in this chat, reuse its structure and change only what they asked; still exactly one runsplash block.\n\nFollow this Splash manual EXACTLY (except the overrides above):\n\n";

/// The message sent to a generating agent in Splash mode: the directive, the
/// Splash manual, then the user's request. The chat still shows only the
/// request.
pub fn app_splash_prompt(request: &str, manual: &str) -> (r: String)
    ensures
        r@ == SPLASH_PROMPT_HEAD@ + manual@ + "\n\nUser request: "@ + request@,
{
    let mut out = chars_of(SPLASH_PROMPT_HEAD);
    push_str(&mut out, manual);
    push_str(&mut out, "\n\nUser request: ");
    push_str(&mut out, request);
    string_of(&out)
}

// ---------------------------------------------------------------------------
// L0 cards
// ---------------------------------------------------------------------------

/// How the prompt names the level it asks for: `L1` for an L1 app, `L0`
/// otherwise.
pub open spec fn level_label(level: Level) -> Seq<char> {
    match level {
        Level::L1 => "L1"@,
        _ => "L0"@,
    }
}

/// The expression rule of the level the prompt asks for: an L1 app may do
/// arithmetic over values it declared; every other app is told L0's rule.
pub open spec fn expression_rule(level: Level) -> Seq<char> {
    match level {
        Level::L1 => "This app is L1, so it declares `# level: L1` and may use ONE thing L0 cannot: arithmetic over values it already declared. Everything else is L0's — no string building, no `if`, no `let`, no functions. An expression must READ something: a coefficient is fine, but an expression made only of literals states a fact rather than computing one and is REFUSED. There is no grouping and no unary minus, so precedence is fixed. Do not reach for L1 anywhere the spec does not ask for it."@,
        _ => "There is no arithmetic, no string building, no `if`, no `let`, no functions. Everything you would reach for those with has a declared form."@,
    }
}

/// The sentence that tells the agent which catalogued look the request
/// names, if it names one.
pub open spec fn theme_hint(theme: Option<Seq<char>>) -> Seq<char> {
    match theme {
        Some(t) => "\n\nThe request asks for the **"@ + t + "** look. Declare `theme "@ + t + "` at the top level of the card — that is the ONLY way to ask for it, and it is not a colour."@,
        None => seq![],
    }
}

fn level_str_l0(level: Level) -> (r: &'static str)
    ensures
        r@ == level_label(level),
{
    match level {
        Level::L1 => "L1",
        _ => "L0",
    }
}

fn expression_rule_str(level: Level) -> (r: &'static str)
    ensures
        r@ == expression_rule(level),
{
    match level {
        Level::L1 => "This app is L1, so it declares `# level: L1` and may use ONE thing L0 cannot: arithmetic over values it already declared. Everything else is L0's — no string building, no `if`, no `let`, no functions. An expression must READ something: a coefficient is fine, but an expression made only of literals states a fact rather than computing one and is REFUSED. There is no grouping and no unary minus, so precedence is fixed. Do not reach for L1 anywhere the spec does not ask for it.",
        _ => "There is no arithmetic, no string building, no `if`, no `let`, no functions. Everything you would reach for those with has a declared form.",
    }
}

pub open spec fn opt_str(o: Option<&str>) -> Option<Seq<char>> {
    match o {
        Some(s) => Some(s@),
        None => None,
    }
}

/// The L0 generation prompt of `domain` for `intent`.
pub open spec fn l0_prompt_spec(
    domain: Seq<char>,
    intent: Seq<char>,
    level: Level,
    theme: Option<Seq<char>>,
    framework: Seq<char>,
    language: Seq<char>,
    catalog: Seq<char>,
    spec: Seq<char>,
    exemplar: Seq<char>,
) -> Seq<char> {
    "You ARE the "@
        + domain
        + " app agent. Everything you need is INLINED BELOW — do NOT claim anything is missing, do NOT read or fetch files, and do NOT ask questions.\n\nWrite an "@
        + level_label(level)
        + " CARD. It is not a program: it DECLARES what data it needs, what state it keeps, what a tap does, and what to show. "@
        + expression_rule(level)
        + " Read the language reference before writing.\n\nNEVER write a fact. Not a temperature, a price, a headline, a venue or a distance. Every one comes from a declared `source`. A card with a number typed into it is wrong the moment the world changes, and nothing downstream can tell it from a card that is right.\n\nNEVER write a colour, a font size or a pixel dimension. You say what a thing IS; a theme decides what it looks like."@
        + theme_hint(theme)
        + "\n\nEmit EXACTLY ONE ```runl0 fenced block as your ENTIRE answer — the complete card, no prose before or after, never truncated. A card that names anything outside the catalog is REFUSED and the reasons are shown instead of your card.\n\n===== FRAMEWORK =====\n"@
        + framework
        + "\n===== LANGUAGE =====\n"@
        + language
        + "\n===== CATALOG =====\n"@
        + catalog
        + "\n===== REQUIREMENTS: "@
        + domain
        + " =====\n"@
        + spec
        + "\n===== A CARD THAT MEETS THEM =====\n"@
        + exemplar
        + "\n===== END REFERENCE =====\n\nUser request: "@
        + intent
}

/// The prompt for an app with an L0 spec: the card is declared, not
/// programmed, at the level the app is approved for (`level`), in the look
/// the request names (`theme`), with the framework, language reference,
/// catalog, the app's requirements and a card that meets them inlined.
pub fn l0_prompt(
    domain: &str,
    intent: &str,
    level: Level,
    theme: Option<&str>,
    framework: &str,
    language: &str,
    catalog: &str,
    spec: &str,
    exemplar: &str,
) -> (r: String)
    ensures
        r@ == l0_prompt_spec(
            domain@,
            intent@,
            level,
            opt_str(theme),
            framework@,
            language@,
            catalog@,
            spec@,
            exemplar@,
        ),
{
    let mut out: Vec<char> = Vec::new();
    push_str(&mut out, "You ARE the ");
    push_str(&mut out, domain);
    push_str(&mut out, " app agent. Everything you need is INLINED BELOW — do NOT claim anything is missing, do NOT read or fetch files, and do NOT ask questions.\n\nWrite an ");
    push_str(&mut out, level_str_l0(level));
    push_str(&mut out, " CARD. It is not a program: it DECLARES what data it needs, what state it keeps, what a tap does, and what to show. ");
    push_str(&mut out, expression_rule_str(level));
    push_str(&mut out, " Read the language reference before writing.\n\nNEVER write a fact. Not a temperature, a price, a headline, a venue or a distance. Every one comes from a declared `source`. A card with a number typed into it is wrong the moment the world changes, and nothing downstream can tell it from a card that is right.\n\nNEVER write a colour, a font size or a pixel dimension. You say what a thing IS; a theme decides what it looks like.");
    match theme {
        Some(t) => {
            push_str(&mut out, "\n\nThe request asks for the **");
            push_str(&mut out, t);
            push_str(&mut out, "** look. Declare `theme ");
            push_str(&mut out, t);
            push_str(&mut out, "` at the top level of the card — that is the ONLY way to ask for it, and it is not a colour.");
        },
        None => {},
    }
    push_str(&mut out, "\n\nEmit EXACTLY ONE ```runl0 fenced block as your ENTIRE answer — the complete card, no prose before or after, never truncated. A card that names anything outside the catalog is REFUSED and the reasons are shown instead of your card.\n\n===== FRAMEWORK =====\n");
    push_str(&mut out, framework);
    push_str(&mut out, "\n===== LANGUAGE =====\n");
    push_str(&mut out, language);
    push_str(&mut out, "\n===== CATALOG =====\n");
    push_str(&mut out, catalog);
    push_str(&mut out, "\n===== REQUIREMENTS: ");
    push_str(&mut out, domain);
    push_str(&mut out, " =====\n");
    push_str(&mut out, spec);
    push_str(&mut out, "\n===== A CARD THAT MEETS THEM =====\n");
    push_str(&mut out, exemplar);
    push_str(&mut out, "\n===== END REFERENCE =====\n\nUser request: ");
    push_str(&mut out, intent);
    string_of(&out)
}

// ---------------------------------------------------------------------------
// Generation prompts of a routed app
// ---------------------------------------------------------------------------

/// The standing directive of an app agent that generates from the specs in
/// its injected memory.
pub const APP_SPLASH_ROUTER: &'static str = "You ARE the app agent and you OWN the entire card generation. Your COMPLETE memory (the app framework procedure, the widget helpers, and the app specs) is ALREADY IN YOUR CONTEXT — it was injected as your memory. USE it. Do NOT read or fetch any files. Do NOT use the spawn tool. Do NOT delegate. Do NOT summarize.\n\nYou have ALREADY been told which app to build (see the routing line below) — follow THAT app's `apps/<id>/app.md` spec, assembling it from the injected widget patterns (there are no exemplars). It may be weather, stock, news, activity, a composed app (e.g. weather-activity), or any other app whose spec is in your memory — build whichever one you were routed to, using ONLY the sys.* helpers ITS spec names. Bind LIVE data via those helpers — NEVER hardcode or invent numbers/headlines/venues.\n\nWrite the card YOURSELF and stream it as your answer: emit EXACTLY ONE ```runsplash fenced block as your ENTIRE final answer — the COMPLETE card DSL, with ALL mandatory sections the chosen app's spec lists (e.g. for weather: current block, 7-day forecast, BOTH map panes each as its own full-width row — satellite 卫星云图 then air-quality 空气质量图, NEVER side by side — and the detail grid). No prose before or after the block. NEVER truncate — emit the whole card in one block.";

/// The prompt of an app whose model writes a plan (typed JSON the runtime
/// lowers into a card), with its plan spec inlined.
pub open spec fn plan_gen_prompt_spec(domain: Seq<char>, intent: Seq<char>, docs: Seq<char>) -> Seq<char> {
    "You ARE the "@
        + domain
        + " app agent. Your PLAN SPEC is INLINED BELOW — you have everything you need, so do NOT claim anything is missing, do NOT read or fetch files, and do NOT ask questions.\n\nYou do NOT write the card. You choose WHAT IT SHOWS and the runtime builds it. Emit EXACTLY ONE ```runplan fenced block containing the JSON the spec describes, as your ENTIRE final answer — no prose before or after, never truncated.\n\nOnly the fields the spec lists exist. Anything absent from the schema — a coordinate, a temperature, a font, a colour, a size — is supplied by the runtime, and a plan carrying one is REJECTED with the offending field named. Choose the place, the condition words, the sections and the locale; nothing else.\n"@
        + docs
        + "\n\nUser request: "@
        + intent
}

/// The plan-mode generation prompt of `domain`.
pub fn plan_gen_prompt(domain: &str, intent: &str, docs: &str) -> (r: String)
    ensures
        r@ == plan_gen_prompt_spec(domain@, intent@, docs@),
{
    let mut out: Vec<char> = Vec::new();
    push_str(&mut out, "You ARE the ");
    push_str(&mut out, domain);
    push_str(&mut out, " app agent. Your PLAN SPEC is INLINED BELOW — you have everything you need, so do NOT claim anything is missing, do NOT read or fetch files, and do NOT ask questions.\n\nYou do NOT write the card. You choose WHAT IT SHOWS and the runtime builds it. Emit EXACTLY ONE ```runplan fenced block containing the JSON the spec describes, as your ENTIRE final answer — no prose before or after, never truncated.\n\nOnly the fields the spec lists exist. Anything absent from the schema — a coordinate, a temperature, a font, a colour, a size — is supplied by the runtime, and a plan carrying one is REJECTED with the offending field named. Choose the place, the condition words, the sections and the locale; nothing else.\n");
    push_str(&mut out, docs);
    push_str(&mut out, "\n\nUser request: ");
    push_str(&mut out, intent);
    string_of(&out)
}

/// The self-contained Splash generation prompt: the syntax manual, the
/// inlined app-card docs, and the output contract.
pub open spec fn dsl_gen_prompt_spec(domain: Seq<char>, intent: Seq<char>, docs: Seq<char>, manual: Seq<char>) -> Seq<char> {
    "You ARE the "@
        + domain
        + " app agent and you OWN the entire card generation. Your SPEC and the widget patterns are INLINED BELOW — you have everything you need, so do NOT claim anything is missing, do NOT read or fetch files, and do NOT ask questions. Follow the `apps/"@
        + domain
        + "/app.md` spec EXACTLY, assembling it from the widget patterns and the SYNTAX MANUAL, using ONLY the `sys.*` helpers the spec names and binding live data through them (NEVER hardcode or invent numbers, headlines, or venues). Use ONLY real Makepad Splash syntax from the manual — real widgets (`SolidView`/`View`/`RoundedView`/`Label`/`Image`/…) with inline attributes. NEVER invent syntax such as `Card { }`, `layout: { }`, or `background:` — those are not Splash and render blank.\n\nEmit EXACTLY ONE ```runsplash fenced block as your ENTIRE final answer — the COMPLETE card DSL with ALL mandatory sections the spec lists, no prose before or after, never truncated.\n\n===== SPLASH SYNTAX MANUAL =====\n"@
        + manual
        + "\n"@
        + docs
        + "\n===== END REFERENCE =====\n\nThe AMA routed this request to the "@
        + domain
        + " app.\n\nUser request: "@
        + intent
}

/// The Splash-DSL generation prompt of `domain`.
pub fn dsl_gen_prompt(domain: &str, intent: &str, docs: &str, manual: &str) -> (r: String)
    ensures
        r@ == dsl_gen_prompt_spec(domain@, intent@, docs@, manual@),
{
    let mut out: Vec<char> = Vec::new();
    push_str(&mut out, "You ARE the ");
    push_str(&mut out, domain);
    push_str(&mut out, " app agent and you OWN the entire card generation. Your SPEC and the widget patterns are INLINED BELOW — you have everything you need, so do NOT claim anything is missing, do NOT read or fetch files, and do NOT ask questions. Follow the `apps/");
    push_str(&mut out, domain);
    push_str(&mut out, "/app.md` spec EXACTLY, assembling it from the widget patterns and the SYNTAX MANUAL, using ONLY the `sys.*` helpers the spec names and binding live data through them (NEVER hardcode or invent numbers, headlines, or venues). Use ONLY real Makepad Splash syntax from the manual — real widgets (`SolidView`/`View`/`RoundedView`/`Label`/`Image`/…) with inline attributes. NEVER invent syntax such as `Card { }`, `layout: { }`, or `background:` — those are not Splash and render blank.\n\nEmit EXACTLY ONE ```runsplash fenced block as your ENTIRE final answer — the COMPLETE card DSL with ALL mandatory sections the spec lists, no prose before or after, never truncated.\n\n===== SPLASH SYNTAX MANUAL =====\n");
    push_str(&mut out, manual);
    push_str(&mut out, "\n");
    push_str(&mut out, docs);
    push_str(&mut out, "\n===== END REFERENCE =====\n\nThe AMA routed this request to the ");
    push_str(&mut out, domain);
    push_str(&mut out, " app.\n\nUser request: ");
    push_str(&mut out, intent);
    string_of(&out)
}

/// The prompt of the web app: one self-contained HTML document in a
/// `runhtml` block.
pub open spec fn web_router_prompt_spec(intent: Seq<char>) -> Seq<char> {
    "You ARE the web app agent and you OWN the entire card generation. Your memory contains the apps/web/app.md CONTRACT — follow it exactly. Build the app the user asked for as ONE complete, self-contained HTML document (inline <style> and <script>, <meta charset=\"utf-8\">, dark theme, 54px top padding) and stream it as your answer: emit EXACTLY ONE ```runhtml fenced block as your ENTIRE final answer — the COMPLETE document, no prose before or after, never truncated. First line inside the block: <!-- name: <short-kebab-slug> -->. Bind live data with fetch() on keyless JSON APIs and NEVER hardcode live values; for media use the documented embed patterns (e.g. the YouTube iframe with autoplay+playsinline+mute).\n\nUser request: "@
        + intent
}

/// The web app's generation prompt.
pub fn web_router_prompt(intent: &str) -> (r: String)
    ensures
        r@ == web_router_prompt_spec(intent@),
{
    let mut out: Vec<char> = Vec::new();
    push_str(&mut out, "You ARE the web app agent and you OWN the entire card generation. Your memory contains the apps/web/app.md CONTRACT — follow it exactly. Build the app the user asked for as ONE complete, self-contained HTML document (inline <style> and <script>, <meta charset=\"utf-8\">, dark theme, 54px top padding) and stream it as your answer: emit EXACTLY ONE ```runhtml fenced block as your ENTIRE final answer — the COMPLETE document, no prose before or after, never truncated. First line inside the block: <!-- name: <short-kebab-slug> -->. Bind live data with fetch() on keyless JSON APIs and NEVER hardcode live values; for media use the documented embed patterns (e.g. the YouTube iframe with autoplay+playsinline+mute).\n\nUser request: ");
    push_str(&mut out, intent);
    string_of(&out)
}

/// The prompt that relies on the app specs in the agent's injected memory
/// (when no docs could be read to inline).
pub open spec fn memory_router_prompt_spec(domain: Seq<char>, intent: Seq<char>) -> Seq<char> {
    APP_SPLASH_ROUTER@
        + "\n\nThe AMA routed this request to the "@
        + domain
        + " app — generate a "@
        + domain
        + " card: follow the apps/"@
        + domain
        + "/app.md spec in your memory, and bind live data with the matching sys.* helper. Do NOT generate any other app type.\n\nUser request: "@
        + intent
}

/// The memory-reliant generation prompt of `domain`.
pub fn memory_router_prompt(domain: &str, intent: &str) -> (r: String)
    ensures
        r@ == memory_router_prompt_spec(domain@, intent@),
{
    let mut out: Vec<char> = Vec::new();
    push_str(&mut out, APP_SPLASH_ROUTER);
    push_str(&mut out, "\n\nThe AMA routed this request to the ");
    push_str(&mut out, domain);
    push_str(&mut out, " app — generate a ");
    push_str(&mut out, domain);
    push_str(&mut out, " card: follow the apps/");
    push_str(&mut out, domain);
    push_str(&mut out, "/app.md spec in your memory, and bind live data with the matching sys.* helper. Do NOT generate any other app type.\n\nUser request: ");
    push_str(&mut out, intent);
    string_of(&out)
}

/// The generation prompt of an app with inlined docs: the plan prompt for a
/// plan app, else the app's L0 prompt when it has one, else the Splash-DSL
/// prompt (an app without an L0 spec keeps the path it always had).
pub open spec fn splash_gen_prompt_spec(
    domain: Seq<char>,
    intent: Seq<char>,
    docs: Seq<char>,
    uses_plan: bool,
    l0: Option<Seq<char>>,
    manual: Seq<char>,
) -> Seq<char> {
    if uses_plan {
        plan_gen_prompt_spec(domain, intent, docs)
    } else {
        match l0 {
            Some(p) => p,
            None => dsl_gen_prompt_spec(domain, intent, docs, manual),
        }
    }
}

/// The generation prompt for `domain` with its `docs` inlined: `uses_plan`
/// whether the app writes plans, `l0` its L0 prompt when it has an L0 spec,
/// `manual` the Splash syntax manual.
pub fn splash_gen_prompt(
    domain: &str,
    intent: &str,
    docs: &str,
    uses_plan: bool,
    l0: Option<String>,
    manual: &str,
) -> (r: String)
    ensures
        r@ == splash_gen_prompt_spec(domain@, intent@, docs@, uses_plan, opt_view(l0), manual@),
{
    if uses_plan {
        return plan_gen_prompt(domain, intent, docs);
    }
    match l0 {
        Some(p) => p,
        None => dsl_gen_prompt(domain, intent, docs, manual),
    }
}

/// The generation prompt of a routed app: the web app's own contract;
/// else, with no docs to inline, the memory-reliant prompt; else the plan
/// prompt for a plan app, the app's L0 prompt when it has one, or the
/// Splash-DSL prompt.
pub open spec fn app_splash_router_spec(
    domain: Seq<char>,
    intent: Seq<char>,
    docs: Seq<char>,
    uses_plan: bool,
    l0: Option<Seq<char>>,
    manual: Seq<char>,
) -> Seq<char> {
    if domain == "web"@ {
        web_router_prompt_spec(intent)
    } else if docs.len() == 0 {
        memory_router_prompt_spec(domain, intent)
    } else {
        splash_gen_prompt_spec(domain, intent, docs, uses_plan, l0, manual)
    }
}

/// The prompt dispatched to the app agent the router chose. `docs` are the
/// inlined widget docs and spec (empty when none could be read), `uses_plan`
/// whether the app writes plans, `l0` its L0 prompt when it has an L0 spec,
/// and `manual` the Splash syntax manual.
pub fn app_splash_router_for(
    domain: &str,
    intent: &str,
    docs: &str,
    uses_plan: bool,
    l0: Option<String>,
    manual: &str,
) -> (r: String)
    ensures
        r@ == app_splash_router_spec(domain@, intent@, docs@, uses_plan, opt_view(l0), manual@),
{
    let dv = chars_of(domain);
    if vec_eq(&dv, &chars_of("web")) {
        return web_router_prompt(intent);
    }
    let docv = chars_of(docs);
    if docv.len() == 0 {
        return memory_router_prompt(domain, intent);
    }
    splash_gen_prompt(domain, intent, docs, uses_plan, l0, manual)
}

} // verus!
