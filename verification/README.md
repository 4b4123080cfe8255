# whisplay-launcher

A launcher for the PiSugar Whisplay HAT (a 240x280 ST7789 panel, an RGB
LED and one push button on a Raspberry Pi): it shows the apps registered in
`apps.json` as a grid, cycles the selection on a short press and runs the
selected app's Python script on a long press.

- `src/` is the verified library: the app registry and its icons, decoded
  and scaled with the `image` crate (`apps`), RGB565 colors
  (`color`), the panel's command stream (`display`), the framebuffer and
  its rounded, alpha-blended icon blitter (`framebuffer`), the button's
  short/long press detector (`button`), the status bar readings (`status`),
  the layout of the menu and splash screens as drawing operations (`menu`)
  and the menu loop's decisions (`launcher`).
- `app/` is the program around it: SPI, GPIO and PWM through rppal, the
  drawing of the layout with embedded-graphics and u8g2 fonts, reading
  `apps.json` with serde and the icon files from disk, the clock through
  libc and running the apps as child processes.
- `tests/` exercises the library on concrete values.
