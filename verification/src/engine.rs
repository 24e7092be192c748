//! The engine facade: the registry and the renderer under one roof,
//! as the surrounding application drives them.

use vstd::prelude::*;

use crate::TestypfResult;
use crate::registry::FontListManager;
use crate::registry::FontScope;
use crate::registry::TestypfFontInfo;
use crate::registry::infos_view;
use crate::render::ForeignRenderEngine;
use crate::render::RenderResult;
use crate::render::RenderSettings;
use crate::render::TypfRenderer;

verus! {

/// The engine: the font registry and the text renderer.
#[derive(Debug)]
pub struct TestypfEngine {
    /// The font lifecycle registry.
    pub font_manager: FontListManager,
    /// The renderer's backend selection state.
    pub text_renderer: TypfRenderer,
}

impl TestypfEngine {
    /// A fresh engine: an empty registry at user scope and the default
    /// renderer.
    pub fn new() -> (r: TestypfEngine)
        ensures
            r.font_manager.records() == Seq::<crate::registry::FontInfoView>::empty(),
            r.font_manager.scope_spec() == FontScope::User,
            r.text_renderer.shaper@ == "harfbuzz"@,
            r.text_renderer.backend@ == "opixa"@,
    {
        TestypfEngine { font_manager: FontListManager::new(), text_renderer: TypfRenderer::new() }
    }

    /// The font registry.
    pub fn font_manager(&mut self) -> (r: &mut FontListManager)
        ensures
            *r == old(self).font_manager,
            *final(r) == final(self).font_manager,
            final(self).text_renderer == old(self).text_renderer,
    {
        &mut self.font_manager
    }

    /// The text renderer.
    pub fn text_renderer(&mut self) -> (r: &mut TypfRenderer)
        ensures
            *r == old(self).text_renderer,
            *final(r) == final(self).text_renderer,
            final(self).font_manager == old(self).font_manager,
    {
        &mut self.text_renderer
    }

    /// Set the font installation scope.
    pub fn set_font_install_scope(&mut self, scope: FontScope)
        ensures
            final(self).font_manager.records() == old(self).font_manager.records(),
            final(self).font_manager.scope_spec() == scope,
            final(self).text_renderer == old(self).text_renderer,
    {
        self.font_manager.set_install_scope(scope);
    }

    /// The current font installation scope.
    pub fn font_install_scope(&self) -> (r: FontScope)
        ensures
            r == self.font_manager.scope_spec(),
    {
        self.font_manager.install_scope()
    }

    /// Render a preview for every loaded font, in registry order; the
    /// first render failure fails the whole call.
    pub fn render_previews<E: ForeignRenderEngine>(
        &mut self,
        engine: &mut E,
        settings: &RenderSettings,
    ) -> (r: TestypfResult<Vec<(TestypfFontInfo, RenderResult)>>)
        ensures
            *final(self) == *old(self),
            old(self).font_manager.records().len() == 0 ==> r is Ok,
            r matches Err(e) ==> e is RenderFailed,
            r matches Ok(v) ==> v@.len() == old(self).font_manager.records().len() && forall|
                i: int,
            |
                0 <= i < v@.len() ==> (#[trigger] v@[i]).0@ == old(self).font_manager.records()[i],
    {
        let fonts = match self.font_manager.get_fonts() {
            Ok(v) => v,
            Err(e) => {
                return Err(e);
            },
        };
        let ghost all = fonts@;
        let n = fonts.len();
        let mut taken = fonts;
        let mut results: Vec<(TestypfFontInfo, RenderResult)> = Vec::new();
        let mut i: usize = 0;
        while i < n
            invariant
                i <= n,
                n == all.len(),
                taken@ == all.skip(i as int),
                infos_view(all) == self.font_manager.records(),
                results@.len() == i,
                forall|j: int|
                    0 <= j < i ==> (#[trigger] results@[j]).0@ == infos_view(all)[j],
            decreases n - i,
        {
            let font = taken.remove(0);
            proof {
                assert(font == all[i as int]);
                assert(taken@ =~= all.skip(i + 1));
            }
            let rendered = match self.text_renderer.render_text(
                engine,
                font.source.path.as_str(),
                settings,
            ) {
                Ok(res) => res,
                Err(e) => {
                    return Err(e);
                },
            };
            results.push((font, rendered));
            proof {
                assert(results@.last().0@ == infos_view(all)[i as int]);
            }
            i = i + 1;
        }
        Ok(results)
    }
}

} // verus!
