//! The weather detail card drawn directly on a list tap (no generation), and
//! the condition table behind it.
use vstd::prelude::*;
use crate::text::{chars_of, replace_all, replace_str, string_of, trim, trim_vec, vec_eq};

verus! {

/// Condition code → (label, glass tint hex, `WeatherIcon` condition, photo
/// scene). The tint tracks the sky: blue when clear, grey when overcast or
/// foggy, slate for rain, cool for snow.
pub open spec fn wx_meta_spec(code: Seq<char>) -> (Seq<char>, Seq<char>, Seq<char>, Seq<char>) {
    if code == "0"@ {
        ("Clear Sky"@, "0f3e73"@, "0.0"@, "clear blue sky bright sunny"@)
    } else if code == "1"@ {
        ("Partly Cloudy"@, "24425f"@, "1.0"@, "partly cloudy blue sky"@)
    } else if code == "2"@ {
        ("Overcast"@, "3f454d"@, "2.0"@, "overcast grey clouds"@)
    } else if code == "3"@ {
        ("Rain"@, "213645"@, "3.0"@, "rain wet reflective streets"@)
    } else if code == "4"@ {
        ("Thunderstorm"@, "241f38"@, "4.0"@, "thunderstorm dramatic dark clouds"@)
    } else if code == "5"@ {
        ("Snow"@, "3f5163"@, "5.0"@, "snow winter white"@)
    } else if code == "6"@ {
        ("Windy"@, "2a3f4a"@, "6.0"@, "windy dramatic sky"@)
    } else if code == "7"@ {
        ("Fog"@, "40454b"@, "7.0"@, "fog mist haze"@)
    } else {
        ("Weather"@, "1a2b40"@, "2.0"@, "skyline"@)
    }
}

/// The label, glass tint, icon condition and photo scene of a (trimmed)
/// condition code; an unknown code gets the neutral `Weather` entry.
pub fn wx_cond_meta(cond: &str) -> (r: (&'static str, &'static str, &'static str, &'static str))
    ensures
        (r.0@, r.1@, r.2@, r.3@) == wx_meta_spec(trim(cond@)),
{
    let raw = chars_of(cond);
    let c = trim_vec(&raw);
    if vec_eq(&c, &chars_of("0")) {
        ("Clear Sky", "0f3e73", "0.0", "clear blue sky bright sunny")
    } else if vec_eq(&c, &chars_of("1")) {
        ("Partly Cloudy", "24425f", "1.0", "partly cloudy blue sky")
    } else if vec_eq(&c, &chars_of("2")) {
        ("Overcast", "3f454d", "2.0", "overcast grey clouds")
    } else if vec_eq(&c, &chars_of("3")) {
        ("Rain", "213645", "3.0", "rain wet reflective streets")
    } else if vec_eq(&c, &chars_of("4")) {
        ("Thunderstorm", "241f38", "4.0", "thunderstorm dramatic dark clouds")
    } else if vec_eq(&c, &chars_of("5")) {
        ("Snow", "3f5163", "5.0", "snow winter white")
    } else if vec_eq(&c, &chars_of("6")) {
        ("Windy", "2a3f4a", "6.0", "windy dramatic sky")
    } else if vec_eq(&c, &chars_of("7")) {
        ("Fog", "40454b", "7.0", "fog mist haze")
    } else {
        ("Weather", "1a2b40", "2.0", "skyline")
    }
}

/// The glass detail card: a condition-matched live photo under blurred glass
/// panels, every number bound live through `sys.weather(lat, lon, …)`. Its
/// placeholders (`__CITY__ __LAT__ __LON__ __TINT__ __ICON__ __LABEL__
/// __SCENE__`) are filled by `glass_detail_card`.
pub const GLASS_DETAIL_TEMPLATE: &'static str = r##"SolidView{ width: Fill height: 940 flow: Overlay new_batch: true draw_bg.color: #05070c
    Image{ src: http_resource(sys.photo("__CITY__ skyline __SCENE__")) fit: ImageFit.CropToFill width: Fill height: Fill }
    View{ width: Fill height: Fill flow: Down padding: Inset{left: 16 top: 56 right: 16 bottom: 40} spacing: 14
        glass.Panel{ width: Fill height: Fit flow: Down new_batch: true padding: Inset{left: 22 top: 20 right: 22 bottom: 18} spacing: 2
            draw_bg +: { tint_color: #x__TINT__ tint_alpha: 0.36 border_color: #xcdd9e6 border_alpha: 0.5 corner_radius: 26.0 highlight_strength: 0.3 }
            Label{ text: "__CITY__" draw_text.color: #ffffff draw_text.text_style: TextStyle{ font_family: FontFamily{ latin := FontMember{ res: crate_resource("makepad_widgets:resources/Roboto-Regular.ttf") asc: 0.0 desc: 0.0 } } font_size: 30 } }
            View{ width: Fill height: 82 flow: Right align: Align{y: 0.5} spacing: 12
                Label{ text: sys.weather(__LAT__, __LON__, "current.temperature_2m") + "°" draw_text.color: #ffffff draw_text.text_style: TextStyle{ font_family: FontFamily{ latin := FontMember{ res: crate_resource("makepad_widgets:resources/Roboto-Thin.ttf") asc: 0.0 desc: 0.0 } } font_size: 62 } }
                View{ width: Fill height: Fit flow: Down spacing: 3
                    Label{ text: "__LABEL__" draw_text.color: #ffffff draw_text.text_style: TextStyle{ font_family: FontFamily{ latin := FontMember{ res: crate_resource("makepad_widgets:resources/Roboto-Medium.ttf") asc: 0.0 desc: 0.0 } } font_size: 16 } }
                    Label{ text: "Feels " + sys.weather(__LAT__, __LON__, "current.apparent_temperature") + "°" draw_text.color: #ffffffcc draw_text.text_style.font_size: 12 }
                }
                WeatherIcon{ draw_bg.cond: __ICON__ width: 44 height: 44 }
            }
            Label{ text: "H:" + sys.weather(__LAT__, __LON__, "daily.temperature_2m_max.0") + "°    L:" + sys.weather(__LAT__, __LON__, "daily.temperature_2m_min.0") + "°" draw_text.color: #ffffffdd draw_text.text_style.font_size: 13 margin: Inset{top: 4} }
        }
        glass.Panel{ width: Fill height: Fit flow: Right new_batch: true padding: Inset{left: 8 top: 14 right: 8 bottom: 14}
            draw_bg +: { tint_color: #x__TINT__ tint_alpha: 0.32 border_color: #xcdd9e6 border_alpha: 0.45 corner_radius: 24.0 }
            View{ width: Fill height: Fit flow: Down align: Align{x: 0.5} spacing: 3
                Label{ text: "HUMIDITY" draw_text.color: #ffffffaa draw_text.text_style.font_size: 10 }
                Label{ text: sys.weather(__LAT__, __LON__, "current.relative_humidity_2m") + "%" draw_text.color: #ffffff draw_text.text_style: TextStyle{ font_family: FontFamily{ latin := FontMember{ res: crate_resource("makepad_widgets:resources/Roboto-Medium.ttf") asc: 0.0 desc: 0.0 } } font_size: 19 } }
            }
            View{ width: Fill height: Fit flow: Down align: Align{x: 0.5} spacing: 3
                Label{ text: "WIND" draw_text.color: #ffffffaa draw_text.text_style.font_size: 10 }
                Label{ text: sys.weather(__LAT__, __LON__, "current.wind_speed_10m") draw_text.color: #ffffff draw_text.text_style: TextStyle{ font_family: FontFamily{ latin := FontMember{ res: crate_resource("makepad_widgets:resources/Roboto-Medium.ttf") asc: 0.0 desc: 0.0 } } font_size: 19 } }
            }
            View{ width: Fill height: Fit flow: Down align: Align{x: 0.5} spacing: 3
                Label{ text: "UV" draw_text.color: #ffffffaa draw_text.text_style.font_size: 10 }
                Label{ text: sys.weather(__LAT__, __LON__, "daily.uv_index_max.0") draw_text.color: #ffffff draw_text.text_style: TextStyle{ font_family: FontFamily{ latin := FontMember{ res: crate_resource("makepad_widgets:resources/Roboto-Medium.ttf") asc: 0.0 desc: 0.0 } } font_size: 19 } }
            }
        }
        glass.Panel{ width: Fill height: Fit flow: Down new_batch: true padding: Inset{left: 12 top: 12 right: 12 bottom: 14} spacing: 8
            draw_bg +: { tint_color: #x__TINT__ tint_alpha: 0.32 border_color: #xcdd9e6 border_alpha: 0.45 corner_radius: 24.0 }
            Label{ text: "7-DAY FORECAST" draw_text.color: #ffffffaa draw_text.text_style.font_size: 10 margin: Inset{left: 4} }
            View{ width: Fill height: Fit flow: Right spacing: 4
                View{ width: Fill height: Fit flow: Down align: Align{x: 0.5} spacing: 6
                    Label{ text: "Today" draw_text.color: #ffffffcc draw_text.text_style.font_size: 11 }
                    WeatherIcon{ draw_bg.cond: __ICON__ width: 28 height: 28 }
                    Label{ text: sys.weather(__LAT__, __LON__, "daily.temperature_2m_max.0") + "°" draw_text.color: #ffffff draw_text.text_style.font_size: 13 }
                    Label{ text: sys.weather(__LAT__, __LON__, "daily.temperature_2m_min.0") + "°" draw_text.color: #ffffff99 draw_text.text_style.font_size: 12 }
                }
                View{ width: Fill height: Fit flow: Down align: Align{x: 0.5} spacing: 6
                    Label{ text: "Sun" draw_text.color: #ffffffcc draw_text.text_style.font_size: 11 }
                    WeatherIcon{ draw_bg.cond: __ICON__ width: 28 height: 28 }
                    Label{ text: sys.weather(__LAT__, __LON__, "daily.temperature_2m_max.1") + "°" draw_text.color: #ffffff draw_text.text_style.font_size: 13 }
                    Label{ text: sys.weather(__LAT__, __LON__, "daily.temperature_2m_min.1") + "°" draw_text.color: #ffffff99 draw_text.text_style.font_size: 12 }
                }
                View{ width: Fill height: Fit flow: Down align: Align{x: 0.5} spacing: 6
                    Label{ text: "Mon" draw_text.color: #ffffffcc draw_text.text_style.font_size: 11 }
                    WeatherIcon{ draw_bg.cond: __ICON__ width: 28 height: 28 }
                    Label{ text: sys.weather(__LAT__, __LON__, "daily.temperature_2m_max.2") + "°" draw_text.color: #ffffff draw_text.text_style.font_size: 13 }
                    Label{ text: sys.weather(__LAT__, __LON__, "daily.temperature_2m_min.2") + "°" draw_text.color: #ffffff99 draw_text.text_style.font_size: 12 }
                }
                View{ width: Fill height: Fit flow: Down align: Align{x: 0.5} spacing: 6
                    Label{ text: "Tue" draw_text.color: #ffffffcc draw_text.text_style.font_size: 11 }
                    WeatherIcon{ draw_bg.cond: __ICON__ width: 28 height: 28 }
                    Label{ text: sys.weather(__LAT__, __LON__, "daily.temperature_2m_max.3") + "°" draw_text.color: #ffffff draw_text.text_style.font_size: 13 }
                    Label{ text: sys.weather(__LAT__, __LON__, "daily.temperature_2m_min.3") + "°" draw_text.color: #ffffff99 draw_text.text_style.font_size: 12 }
                }
                View{ width: Fill height: Fit flow: Down align: Align{x: 0.5} spacing: 6
                    Label{ text: "Wed" draw_text.color: #ffffffcc draw_text.text_style.font_size: 11 }
                    WeatherIcon{ draw_bg.cond: __ICON__ width: 28 height: 28 }
                    Label{ text: sys.weather(__LAT__, __LON__, "daily.temperature_2m_max.4") + "°" draw_text.color: #ffffff draw_text.text_style.font_size: 13 }
                    Label{ text: sys.weather(__LAT__, __LON__, "daily.temperature_2m_min.4") + "°" draw_text.color: #ffffff99 draw_text.text_style.font_size: 12 }
                }
            }
        }
    }
}"##;

/// The detail card with each placeholder replaced, in this order: city,
/// latitude, longitude, then the condition's tint, icon, label and scene.
pub open spec fn glass_card_spec(city: Seq<char>, lat: Seq<char>, lon: Seq<char>, cond: Seq<char>) -> Seq<char> {
    let m = wx_meta_spec(trim(cond));
    let a = replace_all(GLASS_DETAIL_TEMPLATE@, "__CITY__"@, city);
    let b = replace_all(a, "__LAT__"@, lat);
    let c = replace_all(b, "__LON__"@, lon);
    let d = replace_all(c, "__TINT__"@, m.1);
    let e = replace_all(d, "__ICON__"@, m.2);
    let f = replace_all(e, "__LABEL__"@, m.0);
    replace_all(f, "__SCENE__"@, m.3)
}

/// The glass detail card of one city, rendered straight from a list tap.
pub fn glass_detail_card(city: &str, lat: &str, lon: &str, cond: &str) -> (r: String)
    ensures
        r@ == glass_card_spec(city@, lat@, lon@, cond@),
{
    let (label, tint, icon, scene) = wx_cond_meta(cond);
    proof {
        reveal_strlit("__CITY__");
        reveal_strlit("__LAT__");
        reveal_strlit("__LON__");
        reveal_strlit("__TINT__");
        reveal_strlit("__ICON__");
        reveal_strlit("__LABEL__");
        reveal_strlit("__SCENE__");
    }
    let t = chars_of(GLASS_DETAIL_TEMPLATE);
    let t = replace_str(&t, "__CITY__", city);
    let t = replace_str(&t, "__LAT__", lat);
    let t = replace_str(&t, "__LON__", lon);
    let t = replace_str(&t, "__TINT__", tint);
    let t = replace_str(&t, "__ICON__", icon);
    let t = replace_str(&t, "__LABEL__", label);
    let t = replace_str(&t, "__SCENE__", scene);
    string_of(&t)
}

} // verus!
