//! Blend modes, layer kinds, layers and the layer stack.
use vstd::prelude::*;
use crate::text::first_where;
use crate::text::{lemma_first_where_found, lemma_first_where_none};

verus! {

/// How a layer's effect is combined with what lies beneath it.
#[derive(Debug, Clone, Copy, PartialEq, Eq, Structural)]
pub enum BlendMode {
    Normal,
    Multiply,
    Screen,
    Overlay,
    SoftLight,
    Color,
    Luminosity,
}

/// The display label of each blend mode.
pub open spec fn blend_label(m: BlendMode) -> Seq<char> {
    match m {
        BlendMode::Normal => "Normal"@,
        BlendMode::Multiply => "正片叠底"@,
        BlendMode::Screen => "滤色"@,
        BlendMode::Overlay => "叠加"@,
        BlendMode::SoftLight => "柔光"@,
        BlendMode::Color => "颜色"@,
        BlendMode::Luminosity => "明度"@,
    }
}

/// Every blend mode, in menu order.
pub const BLEND_MODES: [BlendMode; 7] = [
    BlendMode::Normal,
    BlendMode::Multiply,
    BlendMode::Screen,
    BlendMode::Overlay,
    BlendMode::SoftLight,
    BlendMode::Color,
    BlendMode::Luminosity,
];

impl BlendMode {
    /// The display label.
    pub fn label(&self) -> (s: &'static str)
        ensures
            s@ == blend_label(*self),
    {
        match self {
            BlendMode::Normal => "Normal",
            BlendMode::Multiply => "正片叠底",
            BlendMode::Screen => "滤色",
            BlendMode::Overlay => "叠加",
            BlendMode::SoftLight => "柔光",
            BlendMode::Color => "颜色",
            BlendMode::Luminosity => "明度",
        }
    }
}

/// The kinds of layer; each kind has its own adjustment parameters, which
/// the library carries without reading them.
#[derive(Debug, Clone, Copy, PartialEq, Eq, Structural)]
pub enum LayerKind {
    FilmBase,
    Color,
    Curves,
    Grain,
    Vignette,
    LightLeak,
    Blur,
    SkinHsl,
    ModernTone,
    SplitTone,
    Sharp,
}

/// The position of each kind in the developing order.
pub open spec fn kind_order(k: LayerKind) -> u8 {
    match k {
        LayerKind::FilmBase => 0,
        LayerKind::Color => 1,
        LayerKind::Curves => 2,
        LayerKind::SkinHsl => 3,
        LayerKind::ModernTone => 4,
        LayerKind::SplitTone => 5,
        LayerKind::Grain => 6,
        LayerKind::Vignette => 7,
        LayerKind::LightLeak => 8,
        LayerKind::Blur => 9,
        LayerKind::Sharp => 10,
    }
}

/// The icon of each kind.
pub open spec fn kind_icon(k: LayerKind) -> Seq<char> {
    match k {
        LayerKind::FilmBase => "🎞"@,
        LayerKind::Color => "🌈"@,
        LayerKind::Curves => "📈"@,
        LayerKind::Grain => "●"@,
        LayerKind::Vignette => "◉"@,
        LayerKind::LightLeak => "☀"@,
        LayerKind::Blur => "◎"@,
        LayerKind::SkinHsl => "👤"@,
        LayerKind::ModernTone => "✨"@,
        LayerKind::SplitTone => "🎨"@,
        LayerKind::Sharp => "🔍"@,
    }
}

/// The display label of each kind.
pub open spec fn kind_label(k: LayerKind) -> Seq<char> {
    match k {
        LayerKind::FilmBase => "胶片基底"@,
        LayerKind::Color => "色彩"@,
        LayerKind::Curves => "曲线"@,
        LayerKind::Grain => "颗粒"@,
        LayerKind::Vignette => "暗角/光晕"@,
        LayerKind::LightLeak => "漏光"@,
        LayerKind::Blur => "模糊"@,
        LayerKind::SkinHsl => "肤色优化"@,
        LayerKind::ModernTone => "现代色调"@,
        LayerKind::SplitTone => "色调分离"@,
        LayerKind::Sharp => "输出锐化"@,
    }
}

/// The short tag of each kind in the layer list.
pub open spec fn kind_tag(k: LayerKind) -> Seq<char> {
    match k {
        LayerKind::FilmBase => "[胶片]"@,
        LayerKind::Color => "[色彩]"@,
        LayerKind::Curves => "[曲线]"@,
        _ => "[--]"@,
    }
}

/// Kinds applied after the film base that leave the film rendering as it is.
pub open spec fn kind_is_post(k: LayerKind) -> bool {
    match k {
        LayerKind::Color | LayerKind::Curves | LayerKind::Grain | LayerKind::Vignette
        | LayerKind::LightLeak | LayerKind::Blur | LayerKind::SkinHsl | LayerKind::ModernTone
        | LayerKind::SplitTone => true,
        _ => false,
    }
}

/// The position of a kind in the developing order.
pub fn layer_type_order(k: LayerKind) -> (o: u8)
    ensures
        o == kind_order(k),
{
    match k {
        LayerKind::FilmBase => 0,
        LayerKind::Color => 1,
        LayerKind::Curves => 2,
        LayerKind::SkinHsl => 3,
        LayerKind::ModernTone => 4,
        LayerKind::SplitTone => 5,
        LayerKind::Grain => 6,
        LayerKind::Vignette => 7,
        LayerKind::LightLeak => 8,
        LayerKind::Blur => 9,
        LayerKind::Sharp => 10,
    }
}

impl LayerKind {
    /// The icon.
    pub fn icon(&self) -> (s: &'static str)
        ensures
            s@ == kind_icon(*self),
    {
        match self {
            LayerKind::FilmBase => "🎞",
            LayerKind::Color => "🌈",
            LayerKind::Curves => "📈",
            LayerKind::Grain => "●",
            LayerKind::Vignette => "◉",
            LayerKind::LightLeak => "☀",
            LayerKind::Blur => "◎",
            LayerKind::SkinHsl => "👤",
            LayerKind::ModernTone => "✨",
            LayerKind::SplitTone => "🎨",
            LayerKind::Sharp => "🔍",
        }
    }

    /// The display label.
    pub fn label(&self) -> (s: &'static str)
        ensures
            s@ == kind_label(*self),
    {
        match self {
            LayerKind::FilmBase => "胶片基底",
            LayerKind::Color => "色彩",
            LayerKind::Curves => "曲线",
            LayerKind::Grain => "颗粒",
            LayerKind::Vignette => "暗角/光晕",
            LayerKind::LightLeak => "漏光",
            LayerKind::Blur => "模糊",
            LayerKind::SkinHsl => "肤色优化",
            LayerKind::ModernTone => "现代色调",
            LayerKind::SplitTone => "色调分离",
            LayerKind::Sharp => "输出锐化",
        }
    }
}

/// The short tag of a kind in the layer list.
pub fn layer_tag(k: LayerKind) -> (s: &'static str)
    ensures
        s@ == kind_tag(k),
{
    match k {
        LayerKind::FilmBase => "[胶片]",
        LayerKind::Color => "[色彩]",
        LayerKind::Curves => "[曲线]",
        _ => "[--]",
    }
}

/// A layer: a name, a kind with its parameters, how it blends and whether it shows.
pub struct Layer<P> {
    pub name: String,
    pub kind: LayerKind,
    pub params: P,
    pub blend_mode: BlendMode,
    pub visible: bool,
}

impl<P> Layer<P> {
    /// A visible layer that blends normally.
    pub fn new(name: String, kind: LayerKind, params: P) -> (l: Self)
        ensures
            l.name == name,
            l.kind == kind,
            l.params == params,
            l.blend_mode == BlendMode::Normal,
            l.visible,
    {
        Layer { name, kind, params, blend_mode: BlendMode::Normal, visible: true }
    }
}

/// The kinds of a sequence of layers.
pub open spec fn kinds<P>(s: Seq<Layer<P>>) -> Seq<LayerKind> {
    s.map_values(|l: Layer<P>| l.kind)
}

/// The layers are in developing order.
pub open spec fn in_develop_order<P>(s: Seq<Layer<P>>) -> bool {
    forall|i: int, j: int| 0 <= i < j < s.len() ==> kind_order(s[i].kind) <= kind_order(s[j].kind)
}

/// Where a layer of kind `k` goes in developing order: before the first
/// layer that develops later, else at the end.
pub open spec fn sorted_position<P>(s: Seq<Layer<P>>, k: LayerKind) -> int {
    match first_where(s, develops_after::<P>(k)) {
        Some(i) => i,
        None => s.len() as int,
    }
}

/// Layers that develop after kind `k`.
pub open spec fn develops_after<P>(k: LayerKind) -> spec_fn(Layer<P>) -> bool {
    |l: Layer<P>| kind_order(l.kind) > kind_order(k)
}

/// `s` with the neighbours at `i - 1` and `i` exchanged.
pub open spec fn swap_down<A>(s: Seq<A>, i: int) -> Seq<A> {
    s.update(i - 1, s[i]).update(i, s[i - 1])
}

/// Whether a layer takes part in compositing.
pub open spec fn layer_renders<P>(l: Layer<P>, include_sharp: bool) -> bool {
    l.visible && l.kind != LayerKind::FilmBase && (l.kind != LayerKind::Sharp || include_sharp)
}

/// The indices of the layers that take part in compositing, in stack order.
pub open spec fn render_plan<P>(s: Seq<Layer<P>>, include_sharp: bool) -> Seq<int>
    decreases s.len(),
{
    if s.len() == 0 {
        Seq::empty()
    } else {
        let prev = render_plan(s.drop_last(), include_sharp);
        if layer_renders(s.last(), include_sharp) {
            prev.push(s.len() - 1)
        } else {
            prev
        }
    }
}

/// Layers, bottom first.
pub struct LayerStack<P> {
    pub layers: Vec<Layer<P>>,
}

impl<P> LayerStack<P> {
    /// An empty stack.
    pub fn new() -> (st: Self)
        ensures
            st.layers@ == Seq::<Layer<P>>::empty(),
    {
        LayerStack { layers: Vec::new() }
    }

    /// Puts a layer on top.
    pub fn add(&mut self, layer: Layer<P>)
        ensures
            final(self).layers@ == old(self).layers@.push(layer),
    {
        self.layers.push(layer);
    }

    /// Inserts a layer where it belongs in developing order: after every
    /// layer that develops no later than it.
    pub fn add_sorted(&mut self, layer: Layer<P>)
        ensures
            final(self).layers@ == old(self).layers@.insert(
                sorted_position(old(self).layers@, layer.kind),
                layer,
            ),
    {
        let order = layer_type_order(layer.kind);
        let ghost s = self.layers@;
        let ghost p = develops_after::<P>(layer.kind);
        let n = self.layers.len();
        let mut i: usize = 0;
        while i < n
            invariant
                n == self.layers.len(),
                self.layers@ == s,
                s == old(self).layers@,
                order == kind_order(layer.kind),
                p == develops_after::<P>(layer.kind),
                i <= n,
                forall|j: int| 0 <= j < i ==> !p(#[trigger] s[j]),
            decreases n - i,
        {
            if layer_type_order(self.layers[i].kind) > order {
                proof {
                    lemma_first_where_found(s, p, i as int);
                }
                self.layers.insert(i, layer);
                return;
            }
            i = i + 1;
        }
        proof {
            lemma_first_where_none(s, p);
        }
        self.layers.push(layer);
    }

    /// Removes the layer at `idx`; an index past the top leaves the stack as it is.
    pub fn remove(&mut self, idx: usize)
        ensures
            idx < old(self).layers@.len() ==> final(self).layers@ == old(self).layers@.remove(idx as int),
            idx >= old(self).layers@.len() ==> final(self).layers@ == old(self).layers@,
    {
        if idx < self.layers.len() {
            self.layers.remove(idx);
        }
    }

    /// Exchanges the layer at `idx` with the one below it; the bottom layer
    /// and indices past the top leave the stack as it is.
    pub fn move_up(&mut self, idx: usize)
        ensures
            0 < idx < old(self).layers@.len() ==> final(self).layers@ == swap_down(old(self).layers@, idx as int),
            !(0 < idx < old(self).layers@.len()) ==> final(self).layers@ == old(self).layers@,
    {
        if idx > 0 && idx < self.layers.len() {
            let ghost s = self.layers@;
            let l = self.layers.remove(idx);
            self.layers.insert(idx - 1, l);
            assert(self.layers@ =~= swap_down(s, idx as int));
        }
    }

    /// Exchanges the layer at `idx` with the one above it; the top layer and
    /// indices past it leave the stack as it is.
    pub fn move_down(&mut self, idx: usize)
        ensures
            (idx as int) + 1 < old(self).layers@.len() ==> final(self).layers@ == swap_down(
                old(self).layers@,
                idx + 1,
            ),
            !((idx as int) + 1 < old(self).layers@.len()) ==> final(self).layers@ == old(self).layers@,
    {
        if idx < self.layers.len() && idx + 1 < self.layers.len() {
            let ghost s = self.layers@;
            let l = self.layers.remove(idx + 1);
            self.layers.insert(idx, l);
            assert(self.layers@ =~= swap_down(s, idx + 1));
        }
    }

    /// Whether a kind is applied after the film base without touching it.
    pub fn is_post_layer(k: LayerKind) -> (b: bool)
        ensures
            b == kind_is_post(k),
    {
        match k {
            LayerKind::Color | LayerKind::Curves | LayerKind::Grain | LayerKind::Vignette
            | LayerKind::LightLeak | LayerKind::Blur | LayerKind::SkinHsl | LayerKind::ModernTone
            | LayerKind::SplitTone => true,
            _ => false,
        }
    }

    /// Whether a kind requires the film rendering to be run again.
    pub fn is_filmr_layer(k: LayerKind) -> (b: bool)
        ensures
            b == (k == LayerKind::FilmBase),
    {
        match k {
            LayerKind::FilmBase => true,
            _ => false,
        }
    }

    /// The index of the first layer of kind `k`.
    pub fn find_kind(&self, k: LayerKind) -> (r: Option<usize>)
        ensures
            match r {
                Some(i) => i < self.layers@.len() && first_where(kinds(self.layers@), |x: LayerKind| x == k)
                    == Some(i as int),
                None => first_where(kinds(self.layers@), |x: LayerKind| x == k) is None,
            },
    {
        let ghost ks = kinds(self.layers@);
        let ghost p = |x: LayerKind| x == k;
        let n = self.layers.len();
        for i in 0..n
            invariant
                n == self.layers.len(),
                ks == kinds(self.layers@),
                p == (|x: LayerKind| x == k),
                forall|j: int| 0 <= j < i ==> !p(#[trigger] ks[j]),
        {
            if self.layers[i].kind == k {
                proof {
                    lemma_first_where_found(ks, p, i as int);
                }
                return Some(i);
            }
        }
        proof {
            lemma_first_where_none(ks, p);
        }
        None
    }

    /// The indices of the layers that compositing applies, bottom first: the
    /// visible ones except the film base, and the sharpening layer only when
    /// `include_sharp` is set.
    pub fn render_order(&self, include_sharp: bool) -> (r: Vec<usize>)
        ensures
            r@.map_values(|i: usize| i as int) == render_plan(self.layers@, include_sharp),
    {
        let mut r: Vec<usize> = Vec::new();
        let n = self.layers.len();
        for i in 0..n
            invariant
                n == self.layers.len(),
                r@.map_values(|i: usize| i as int) == render_plan(self.layers@.take(i as int), include_sharp),
        {
            let l = &self.layers[i];
            proof {
                assert(self.layers@.take(i + 1).drop_last() =~= self.layers@.take(i as int));
            }
            let ghost before = r@;
            if l.visible && l.kind != LayerKind::FilmBase && (l.kind != LayerKind::Sharp || include_sharp) {
                r.push(i);
                assert(r@.map_values(|i: usize| i as int) =~= before.map_values(|i: usize| i as int).push(
                    i as int,
                ));
            }
        }
        assert(self.layers@.take(n as int) =~= self.layers@);
        r
    }
}

/// Inserting a layer at its developing position keeps a stack that is in
/// developing order in developing order.
pub proof fn lemma_add_sorted_keeps_order<P>(s: Seq<Layer<P>>, l: Layer<P>)
    requires
        in_develop_order(s),
    ensures
        in_develop_order(s.insert(sorted_position(s, l.kind), l)),
{
    let p = develops_after::<P>(l.kind);
    crate::text::lemma_first_where_bounds(s, p);
    let pos = sorted_position(s, l.kind);
    let t = s.insert(pos, l);
    assert(0 <= pos <= s.len());
    assert forall|j: int| 0 <= j < pos implies kind_order(#[trigger] s[j].kind) <= kind_order(l.kind) by {
        assert(!p(s[j]));
    }
    assert forall|j: int| pos <= j < s.len() implies kind_order(#[trigger] s[j].kind) > kind_order(l.kind) by {
        assert(p(s[pos]));
        assert(kind_order(s[pos].kind) <= kind_order(s[j].kind));
    }
    assert forall|i: int, j: int| 0 <= i < j < t.len() implies kind_order(t[i].kind) <= kind_order(t[j].kind) by {
        if i < pos && j < pos {
            assert(t[i] == s[i] && t[j] == s[j]);
        } else if i < pos && j == pos {
            assert(t[i] == s[i]);
        } else if i < pos {
            assert(t[i] == s[i] && t[j] == s[j - 1]);
        } else if i == pos {
            assert(t[j] == s[j - 1]);
        } else {
            assert(t[i] == s[i - 1] && t[j] == s[j - 1]);
        }
    }
}

/// Inserting a layer adds exactly that layer to what the stack holds.
pub proof fn lemma_add_sorted_adds_layer<P>(s: Seq<Layer<P>>, l: Layer<P>)
    ensures
        s.insert(sorted_position(s, l.kind), l).to_multiset() == s.to_multiset().insert(l),
{
    crate::text::lemma_first_where_bounds(s, develops_after::<P>(l.kind));
    vstd::seq_lib::to_multiset_insert(s, sorted_position(s, l.kind), l);
}

/// Moving a layer up and then moving it back down restores the stack.
pub proof fn lemma_move_up_then_down<A>(s: Seq<A>, i: int)
    requires
        0 < i < s.len(),
    ensures
        swap_down(swap_down(s, i), i) == s,
{
    assert(swap_down(swap_down(s, i), i) =~= s);
}

/// Moving a layer up or down keeps every layer, each as often as before.
pub proof fn lemma_swap_keeps_layers<A>(s: Seq<A>, i: int)
    requires
        0 < i < s.len(),
    ensures
        swap_down(s, i).to_multiset() == s.to_multiset(),
        swap_down(s, i).len() == s.len(),
{
    broadcast use vstd::multiset::group_multiset_axioms;

    let a = s[i];
    assert(swap_down(s, i) =~= s.remove(i).insert(i - 1, a));
    vstd::seq_lib::to_multiset_remove(s, i);
    vstd::seq_lib::to_multiset_insert(s.remove(i), i - 1, a);
    vstd::seq_lib::to_multiset_contains(s, a);
    assert(s.contains(a));
    assert(s.to_multiset().remove(a).insert(a) =~= s.to_multiset());
}

/// In a stack in developing order the film base comes before every
/// adjustment layer: every adjustment develops after the film base.
pub proof fn lemma_film_base_first<P>(s: Seq<Layer<P>>, i: int, j: int)
    requires
        in_develop_order(s),
        0 <= i < s.len(),
        0 <= j < s.len(),
        s[i].kind == LayerKind::FilmBase,
        s[j].kind != LayerKind::FilmBase,
    ensures
        i < j,
{
    if j < i {
        assert(kind_order(s[j].kind) <= kind_order(s[i].kind));
    }
}

/// The developing order of the kinds: film base, colour, curves, skin tones,
/// modern tone, split tone, grain, vignette, light leak, blur, sharpening;
/// each develops strictly after the ones before it in this list.
pub proof fn lemma_developing_sequence()
    ensures
        ({
            let ks = seq![
                LayerKind::FilmBase,
                LayerKind::Color,
                LayerKind::Curves,
                LayerKind::SkinHsl,
                LayerKind::ModernTone,
                LayerKind::SplitTone,
                LayerKind::Grain,
                LayerKind::Vignette,
                LayerKind::LightLeak,
                LayerKind::Blur,
                LayerKind::Sharp,
            ];
            forall|i: int, j: int| 0 <= i < j < ks.len() ==> kind_order(#[trigger] ks[i]) < kind_order(#[trigger] ks[j])
        }),
{
}

/// A layer inserted by developing order into a stack in developing order
/// lands above every layer that develops before it and below every layer
/// that develops after it (so a blur layer goes above every grain layer).
pub proof fn lemma_add_sorted_places_layer<P>(s: Seq<Layer<P>>, l: Layer<P>)
    requires
        in_develop_order(s),
    ensures
        ({
            let pos = sorted_position(s, l.kind);
            let t = s.insert(pos, l);
            &&& 0 <= pos <= s.len()
            &&& t[pos] == l
            &&& forall|j: int| 0 <= j < t.len() && kind_order(#[trigger] t[j].kind) < kind_order(l.kind) ==> j < pos
            &&& forall|j: int| 0 <= j < t.len() && kind_order(#[trigger] t[j].kind) > kind_order(l.kind) ==> j > pos
        }),
{
    let p = develops_after::<P>(l.kind);
    crate::text::lemma_first_where_bounds(s, p);
    let pos = sorted_position(s, l.kind);
    let t = s.insert(pos, l);
    assert forall|j: int| 0 <= j < t.len() && kind_order(#[trigger] t[j].kind) < kind_order(l.kind) implies j < pos by {
        if j > pos {
            assert(t[j] == s[j - 1]);
            assert(p(s[pos]));
            assert(kind_order(s[pos].kind) <= kind_order(s[j - 1].kind));
        }
    }
    assert forall|j: int| 0 <= j < t.len() && kind_order(#[trigger] t[j].kind) > kind_order(l.kind) implies j > pos by {
        if j < pos {
            assert(t[j] == s[j]);
            assert(!p(s[j]));
        }
    }
}

/// Adding a blur layer by developing order to a stack in developing order
/// puts it above every grain layer.
pub proof fn lemma_blur_lands_above_grain<P>(s: Seq<Layer<P>>, l: Layer<P>, j: int)
    requires
        in_develop_order(s),
        l.kind == LayerKind::Blur,
        0 <= j < s.insert(sorted_position(s, l.kind), l).len(),
        s.insert(sorted_position(s, l.kind), l)[j].kind == LayerKind::Grain,
    ensures
        j < sorted_position(s, l.kind),
{
    lemma_add_sorted_places_layer(s, l);
    lemma_developing_sequence();
    let ks = seq![
        LayerKind::FilmBase,
        LayerKind::Color,
        LayerKind::Curves,
        LayerKind::SkinHsl,
        LayerKind::ModernTone,
        LayerKind::SplitTone,
        LayerKind::Grain,
        LayerKind::Vignette,
        LayerKind::LightLeak,
        LayerKind::Blur,
        LayerKind::Sharp,
    ];
    assert(kind_order(ks[6]) < kind_order(ks[9]));
}

/// Moving the layer at `i` down one place: it now stands at `i - 1`, the
/// layer that stood there now stands at `i`, every other layer keeps its place.
pub proof fn lemma_swap_down_exchanges<A>(s: Seq<A>, i: int)
    requires
        0 < i < s.len(),
    ensures
        swap_down(s, i).len() == s.len(),
        swap_down(s, i)[i - 1] == s[i],
        swap_down(s, i)[i] == s[i - 1],
        forall|j: int| 0 <= j < s.len() && j != i && j != i - 1 ==> #[trigger] swap_down(s, i)[j] == s[j],
{
}

/// The kinds applied after the film base without touching it are every
/// kind but the film base and the sharpening.
pub proof fn lemma_post_kinds(k: LayerKind)
    ensures
        kind_is_post(k) <==> (k != LayerKind::FilmBase && k != LayerKind::Sharp),
{
}

/// Compositing applies, bottom first and each once, exactly the layers that
/// are visible and are not the film base, leaving out the sharpening layer
/// unless `include_sharp` is set.
pub proof fn lemma_render_plan_selects<P>(s: Seq<Layer<P>>, include_sharp: bool)
    ensures
        forall|k: int| 0 <= k < s.len() ==> (render_plan(s, include_sharp).contains(k) <==> ({
            let l = #[trigger] s[k];
            l.visible && l.kind != LayerKind::FilmBase && (l.kind != LayerKind::Sharp || include_sharp)
        })),
        forall|a: int| 0 <= a < render_plan(s, include_sharp).len() ==> 0 <= #[trigger] render_plan(s, include_sharp)[a] < s.len(),
        forall|a: int, b: int| 0 <= a < b < render_plan(s, include_sharp).len() ==> #[trigger] render_plan(s, include_sharp)[a] < #[trigger] render_plan(s, include_sharp)[b],
    decreases s.len(),
{
    if s.len() > 0 {
        let t = s.drop_last();
        lemma_render_plan_selects(t, include_sharp);
        let prev = render_plan(t, include_sharp);
        let plan = render_plan(s, include_sharp);
        assert forall|k: int| 0 <= k < s.len() implies (plan.contains(k) <==> ({
            let l = #[trigger] s[k];
            l.visible && l.kind != LayerKind::FilmBase && (l.kind != LayerKind::Sharp || include_sharp)
        })) by {
            if k < s.len() - 1 {
                assert(s[k] == t[k]);
                if plan.contains(k) && !prev.contains(k) {
                    let a = choose|a: int| 0 <= a < plan.len() && plan[a] == k;
                    assert(a == prev.len());
                }
                if prev.contains(k) {
                    let a = choose|a: int| 0 <= a < prev.len() && prev[a] == k;
                    assert(plan[a] == k);
                }
            } else {
                if layer_renders(s.last(), include_sharp) {
                    assert(plan[prev.len() as int] == k);
                } else {
                    if plan.contains(k) {
                        let a = choose|a: int| 0 <= a < plan.len() && plan[a] == k;
                        assert(prev[a] < t.len());
                    }
                }
            }
        }
    }
}

} // verus!
