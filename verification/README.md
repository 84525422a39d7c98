# lay_out

A small UI layout library whose behaviour is specified and proved with Verus.

- `src/softui.rs`: rectangles, units, colours, primatives and the `Widget`
  trait with its builders (`x`, `width`, `wh`, `pos`, ...).
- `src/flex.rs`: the flex layout: sizing a row of widgets into a container
  (`h`), placing the widgets of a container from an offset (`draw_widgets`),
  laying out containers side by side (`flex`), and the deferred layouts
  (`DeferFlex`, `DeferContainer`, `Defer`).
- `src/grow.rs`: the earlier row layout that moves widgets in place (`grow2`)
  and sizes rows with a fixed gap.
- `src/smallvec.rs`: a bounded vector whose length is kept tagged.
- `app/main.rs`: the example program; it performs the draw calls (printing)
  and holds the floating-point centring.
