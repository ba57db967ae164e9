use filmrust::layers::{
    layer_tag, layer_type_order, BlendMode, Layer, LayerKind, LayerStack, BLEND_MODES,
};

fn layer(name: &str, kind: LayerKind) -> Layer<u32> {
    Layer::new(name.to_string(), kind, 0)
}

fn names(st: &LayerStack<u32>) -> Vec<String> {
    st.layers.iter().map(|l| l.name.clone()).collect()
}

#[test]
fn blend_labels() {
    assert_eq!(BlendMode::Normal.label(), "Normal");
    assert_eq!(BlendMode::Multiply.label(), "正片叠底");
    assert_eq!(BlendMode::Luminosity.label(), "明度");
    assert_eq!(BLEND_MODES.len(), 7);
    assert_eq!(BLEND_MODES[3], BlendMode::Overlay);
}

#[test]
fn kind_labels_and_icons() {
    assert_eq!(LayerKind::Curves.label(), "曲线");
    assert_eq!(LayerKind::Sharp.icon(), "🔍");
    assert_eq!(layer_tag(LayerKind::FilmBase), "[胶片]");
    assert_eq!(layer_tag(LayerKind::Grain), "[--]");
    assert_eq!(layer_type_order(LayerKind::SkinHsl), 3);
    assert_eq!(layer_type_order(LayerKind::Sharp), 10);
}

#[test]
fn new_layer_defaults() {
    let l = layer("a", LayerKind::Color);
    assert!(l.visible);
    assert_eq!(l.blend_mode, BlendMode::Normal);
    assert_eq!(l.kind, LayerKind::Color);
}

#[test]
fn add_sorted_follows_developing_order() {
    let mut st = LayerStack::new();
    st.add_sorted(layer("grain", LayerKind::Grain));
    st.add_sorted(layer("base", LayerKind::FilmBase));
    st.add_sorted(layer("sharp", LayerKind::Sharp));
    st.add_sorted(layer("color", LayerKind::Color));
    st.add_sorted(layer("color2", LayerKind::Color));
    st.add_sorted(layer("split", LayerKind::SplitTone));
    assert_eq!(names(&st), vec!["base", "color", "color2", "split", "grain", "sharp"]);
    let orders: Vec<u8> = st.layers.iter().map(|l| layer_type_order(l.kind)).collect();
    let mut sorted = orders.clone();
    sorted.sort();
    assert_eq!(orders, sorted);
}

#[test]
fn add_puts_on_top() {
    let mut st = LayerStack::new();
    st.add(layer("sharp", LayerKind::Sharp));
    st.add(layer("base", LayerKind::FilmBase));
    assert_eq!(names(&st), vec!["sharp", "base"]);
}

#[test]
fn remove_and_out_of_range() {
    let mut st = LayerStack::new();
    st.add(layer("a", LayerKind::Color));
    st.add(layer("b", LayerKind::Curves));
    st.remove(5);
    assert_eq!(names(&st), vec!["a", "b"]);
    st.remove(0);
    assert_eq!(names(&st), vec!["b"]);
}

#[test]
fn move_up_then_down_restores() {
    let mut st = LayerStack::new();
    for n in ["a", "b", "c"] {
        st.add(layer(n, LayerKind::Color));
    }
    st.move_up(2);
    assert_eq!(names(&st), vec!["a", "c", "b"]);
    st.move_down(1);
    assert_eq!(names(&st), vec!["a", "b", "c"]);
    st.move_up(0);
    st.move_down(2);
    st.move_down(usize::MAX);
    assert_eq!(names(&st), vec!["a", "b", "c"]);
}

#[test]
fn post_and_film_kinds() {
    assert!(LayerStack::<u32>::is_post_layer(LayerKind::Vignette));
    assert!(!LayerStack::<u32>::is_post_layer(LayerKind::FilmBase));
    assert!(!LayerStack::<u32>::is_post_layer(LayerKind::Sharp));
    assert!(LayerStack::<u32>::is_filmr_layer(LayerKind::FilmBase));
    assert!(!LayerStack::<u32>::is_filmr_layer(LayerKind::Color));
}

#[test]
fn render_order_skips_hidden_base_and_sharp() {
    let mut st = LayerStack::new();
    st.add(layer("base", LayerKind::FilmBase));
    st.add(layer("color", LayerKind::Color));
    let mut hidden = layer("hidden", LayerKind::Curves);
    hidden.visible = false;
    st.add(hidden);
    st.add(layer("sharp", LayerKind::Sharp));
    assert_eq!(st.render_order(false), vec![1]);
    assert_eq!(st.render_order(true), vec![1, 3]);
    assert_eq!(st.find_kind(LayerKind::Sharp), Some(3));
    assert_eq!(st.find_kind(LayerKind::Grain), None);
}
