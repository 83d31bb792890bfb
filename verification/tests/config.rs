use murrelet::assets::{AssetFilenames, JsonStringFile, PolylineLayerFile, RasterFile, _empty_filenames, _empty_filenames_lazy};
use murrelet::cli::{job_from_manifest, parse_u32, single_job, BaseConfigArgs, TextureDimensions};
use murrelet::livecode::{combine_vecs, empty_string, empty_string_lazy, empty_vec, repeat_prefix, CachedCompute, LazyColorMode, LivecodeToControl};
use murrelet::perform::{GpuConfig, _default_false};

fn args(w: u32, h: u32, mult: u32) -> BaseConfigArgs {
    BaseConfigArgs {
        config_path: "conf.yaml".to_string(),
        capture: true,
        resolution: TextureDimensions { width: w, height: h },
        texture_multiplier: mult,
        earlystop: None,
        overrides: vec![],
        output: None,
        batch: None,
        sketch_args: vec![],
    }
}

#[test]
fn dims_parse_and_print() {
    let d = TextureDimensions::from_str("1920x1080").unwrap();
    assert_eq!(d.as_dims(), [1920, 1080]);
    assert_eq!(d.to_string(), "1920x1080");
    assert_eq!(TextureDimensions::default().as_dims(), [800, 800]);
}

#[test]
fn dims_round_trip() {
    for (w, h) in [(0u32, 0u32), (1, 2), (800, 600), (u32::MAX, 7)] {
        let d = TextureDimensions { width: w, height: h };
        let back = TextureDimensions::from_str(&d.to_string()).unwrap();
        assert_eq!(back.as_dims(), [w, h]);
    }
}

#[test]
fn dims_errors() {
    assert_eq!(TextureDimensions::from_str("1920").unwrap_err(), "Dimensions must be in format WIDTHxHEIGHT");
    assert_eq!(TextureDimensions::from_str("1x2x3").unwrap_err(), "Dimensions must be in format WIDTHxHEIGHT");
    assert_eq!(TextureDimensions::from_str("ax2").unwrap_err(), "Invalid width");
    assert_eq!(TextureDimensions::from_str("2xb").unwrap_err(), "Invalid height");
    assert_eq!(TextureDimensions::from_str("x2").unwrap_err(), "Invalid width");
}

#[test]
fn u32_parsing_matches_std() {
    for s in ["0", "+5", "4294967295", "4294967296", "", "+", "-1", "12a", "007"] {
        assert_eq!(parse_u32(s), s.parse::<u32>().ok(), "{}", s);
    }
}

#[test]
fn texture_dims_scale_the_window() {
    let a = args(400, 300, 2);
    assert_eq!(a.texture_dims().as_dims(), [800, 600]);
    assert_eq!(a.config_path(), "conf.yaml");
    assert!(a.should_capture());
    assert!(!a.asks_headless());
}

#[test]
fn headless_when_output_or_batch() {
    let mut a = args(1, 1, 1);
    a.output = Some("out.png".to_string());
    assert!(a.asks_headless());
    let mut b = args(1, 1, 1);
    b.batch = Some("jobs.yaml".to_string());
    assert!(b.asks_headless());
}

#[test]
fn single_job_has_no_overrides() {
    let j = single_job(Some("x.png".to_string()));
    assert!(j.overrides.is_empty());
    assert_eq!(j.output, Some("x.png".to_string()));
    assert_eq!(j.resolution, None);
}

#[test]
fn manifest_jobs_become_overrides() {
    let set = vec![("a.b".to_string(), "1".to_string()), ("c".to_string(), "x=y".to_string())];
    let j = job_from_manifest(&set, "o.png".to_string(), Some("64x32".to_string())).unwrap();
    assert_eq!(j.overrides, vec!["a.b=1".to_string(), "c=x=y".to_string()]);
    assert_eq!(j.output, Some("o.png".to_string()));
    assert_eq!(j.resolution, Some([64, 32]));
    let bad = job_from_manifest(&set, "o.png".to_string(), Some("64".to_string()));
    assert_eq!(bad.err(), Some("Dimensions must be in format WIDTHxHEIGHT".to_string()));
}

#[test]
fn asset_paths_are_names() {
    let j = JsonStringFile { name: "data.json".to_string(), content: "{}".to_string() };
    assert_eq!(j.path(), "data.json");
    let r = RasterFile { name: "img/a.png".to_string() };
    assert_eq!(r.path(), "img/a.png");
    let p = PolylineLayerFile::new("v.svg".to_string(), "a,b".to_string());
    assert_eq!(p.path(), "v.svg");
}

#[test]
fn empty_assets() {
    for a in [AssetFilenames::empty(), _empty_filenames(), _empty_filenames_lazy()] {
        assert!(a.vector_files.is_empty() && a.raster_files.is_empty() && a.json_files.is_empty());
    }
}

#[test]
fn vector_loads_split_layers_and_skip_plain_names() {
    let a = AssetFilenames {
        vector_files: vec![
            PolylineLayerFile::new("shapes/bird.svg".to_string(), "wing,body".to_string()),
            PolylineLayerFile::new("noext".to_string(), "x".to_string()),
            PolylineLayerFile::new("fish.tar.svg".to_string(), "".to_string()),
        ],
        raster_files: vec![RasterFile { name: "a/b.png".to_string() }, RasterFile { name: ".hidden".to_string() }],
        json_files: vec![],
    };
    let loads = a.vector_loads();
    assert_eq!(loads.len(), 2);
    assert_eq!(loads[0].stem, "bird");
    assert_eq!(loads[0].extension, "svg");
    assert_eq!(loads[0].layers, vec!["wing".to_string(), "body".to_string()]);
    assert_eq!(loads[0].name, "shapes/bird.svg");
    assert_eq!(loads[1].stem, "fish.tar");
    assert_eq!(loads[1].layers, vec!["".to_string()]);
    let rasters = a.raster_loads();
    assert_eq!(rasters.len(), 1);
    assert_eq!(rasters[0].stem, "b");
    assert_eq!(rasters[0].extension, "png");
}

#[test]
fn defaults_are_empty() {
    let v: Vec<u8> = empty_vec();
    assert!(v.is_empty());
    assert_eq!(empty_string(), "");
    assert_eq!(empty_string_lazy(), "");
    assert!(!_default_false());
    assert_eq!(LazyColorMode::default(), LazyColorMode::Hsva);
}

#[test]
fn cached_compute_fills_once() {
    let mut c: CachedCompute<u32> = CachedCompute::new();
    assert!(!c.has_been_set());
    assert_eq!(*c.get_or_init(|| 5), 5);
    assert!(c.has_been_set());
    assert_eq!(*c.get_or_init(|| 9), 5);
}

#[test]
fn repeat_prefix_defaults_to_i() {
    assert_eq!(repeat_prefix(""), "i_");
    assert_eq!(repeat_prefix("row"), "row_");
}

#[test]
fn combine_vecs_mixes_then_keeps() {
    let a = vec![1, 2, 3];
    let b = vec![10, 20];
    assert_eq!(combine_vecs(&a, &b, 3, |x: &i32, y: &i32| x + y), vec![11, 22, 3]);
    assert_eq!(combine_vecs(&b, &a, 3, |x: &i32, y: &i32| x * y), vec![10, 40, 3]);
    assert_eq!(combine_vecs(&a, &b, 1, |x: &i32, y: &i32| x - y), vec![-9]);
}

struct Celsius(i32);
impl LivecodeToControl<String> for Celsius {
    fn to_control(&self) -> String {
        format!("{}C", self.0)
    }
}

#[test]
fn to_control_goes_through_lists_and_options() {
    let v = vec![Celsius(1), Celsius(2)];
    assert_eq!(v.to_control(), vec!["1C".to_string(), "2C".to_string()]);
    assert_eq!(Some(Celsius(3)).to_control(), Some("3C".to_string()));
    let none: Option<Celsius> = None;
    assert_eq!(none.to_control(), None);
}

#[test]
fn gpu_config_holds_its_settings() {
    let g = GpuConfig { debug_next: false, debug: true, color_channel: 2 };
    assert_eq!(g, g.clone());
    assert_eq!(g.color_channel, 2);
}

#[test]
fn lists_of_one_length_keep_it() {
    let a = vec![1, 2];
    let b = vec![10, 20];
    assert_eq!(combine_vecs(&a, &b, 0, |x: &i32, y: &i32| x + y), vec![11, 22]);
    assert_eq!(combine_vecs(&a, &b, 5, |x: &i32, y: &i32| x + y), vec![11, 22]);
}

#[test]
fn a_cache_copy_keeps_its_state() {
    let empty: CachedCompute<i32> = CachedCompute::new();
    assert!(!empty.has_been_set());
    assert!(!empty.clone().has_been_set());
    let mut full: CachedCompute<i32> = CachedCompute::new();
    assert_eq!(*full.get_or_init(|| 4), 4);
    let mut copy = full.clone();
    assert!(copy.has_been_set());
    assert_eq!(*copy.get_or_init(|| 9), 4);
}
