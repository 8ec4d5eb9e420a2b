# TuxScaling

TuxScaling shows a game that renders at a small size on the whole monitor. It
is a Vulkan layer: it stands between the game and the driver, gives the game
swapchains of the size it asked for, and scales what the game presents.

- `src/` is the library. It holds the rules of the layer: which swapchains
  become virtual, which image of the game stands for which image of the driver,
  when a window has settled on its monitor, in which order frames are prepared
  and submitted, what is given back and when. Its functions have contracts that
  Verus proves.
- `app/` carries the decisions out: the entry points of the Vulkan loader, the
  X11 connections, the command buffers, the settings file. It walks the
  pointers of Vulkan's structures, holds the locks, runs the steps that the
  library asks for and hands the answers back. Nothing in it is proved.
- `tests/` runs the library on concrete values.

What the proofs take on trust is what six small wrappers say of functions
outside: the debug texts of three Vulkan types and the reading of shader words
(`ash`), the bytes of words (`bytemuck`), and the reading of bytes as text
(the standard library). They stand in `text` and `gpu`, each with a comment on
what it claims.

## The library

| module | what it holds |
| --- | --- |
| `layer::mapping` | logical handles, and the logical images that stand for physical ones |
| `layer::recovery` | the promise of a logical swapchain, and the change of its generation |
| `layer::state` | what the layer knows of surfaces, swapchains, devices and queues |
| `layer::hooks` | the commands of Vulkan that the layer answers itself |
| `display` | windows and monitors, and the negotiation of a borderless window |
| `input` | what the overlay and the game get of the pointer and the keys |
| `capture`, `motion` | the recorded work of capturing a frame and estimating motion |
| `config` | the settings, their names and their limits |
| `vk`, `gpu`, `table`, `seqs`, `text` | the vocabulary of the others |

Handles, results and flags of Vulkan are plain numbers in the library, and
32-bit floats are their bit patterns. Times are nanoseconds.
