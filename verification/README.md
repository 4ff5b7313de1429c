# hyu

The logic of the hyu Wayland compositor, proved with Verus.

- `src/` is the verified library: the window stack and its focus rules
  (`state`), pointer hit-testing (`pointer`), what a frame draws (`draw`),
  the per-client object store (`store`, `client`), kernel mode-setting data
  and atomic commits (`drm`, `backend::drm`), the wire formats of client
  requests and card events (`elp`), and the choices made when the Vulkan
  renderer is set up (`renderer::vulkan`).
- `app/` is the program around it: the terminal, the card's ioctls, libinput,
  xkbcommon and gbm, the client sockets and the event loop.
- `tests/` runs the library on concrete values.
