# e7012e_sim

A simulator for the E7012E RP2350 controller: a kinematic bicycle model,
emulated encoder, distance and camera sensors, a serial link to the
controller, and a browser UI with Prometheus metrics.

The crate is split in two:

- `src/` is a Verus-verified library with the simulator's rules:
  - `telemetry`, `decimal`, `text`: reading the controller's telemetry lines
    (the `steer_us:`/`throttle_us:`, `steer_pwm_us=`/`throttle_pwm_us=` and
    CSV forms, and the numbers after the estimate markers);
  - `framing`: cutting the serial receive buffer into lines;
  - `link`: the serial session as a state machine from event to action;
  - `http_api`, `map_list`, `json`, `strings`: routing and request handling of
    the UI server;
  - `controls`, `settings`, `map`: pulse-width limits, the throttle deadband,
    the tick-rate setting and map line kinds.
- `app/` is the program around it: threads, serial port and HTTP I/O, the
  floating-point vehicle and sensor models, map loading and the metrics.
