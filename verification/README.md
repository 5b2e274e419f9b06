# dnf_assist

The verified core of a game assistant that drives Android emulators through
adb and the game window through a virtual keyboard and mouse.

`src/` is the library, checked by Verus:

- `text`: characters, line splitting, decimal numbers (`u32` parse and write).
- `adb`: adb command lines for a device, and reading what they print: the
  `adb devices` list and the PNG screenshot.
- `automation`: the state machines of a run on one device: reaching the map
  spot, opening the backpack, clearing goods out of it, closing the pop-up.
- `dnf`: keyboard and mouse scripts for the game window.
- `yolo`: class names from model metadata, labels, greedy non-maximum
  suppression.
- `ocr`: the recognizer's key table, greedy CTC decoding, detector sizes,
  box-score cells, and unpadding box corners.
- `raster`: images as bytes: RGB padding with white, RGBA pixel reads and
  crops.
- `random`: random integers in a range.

`app/` is the program around it: it runs adb, matches
templates on the GPU, runs the ONNX models and the text recognizer, and
carries out the plans that the library returns.
